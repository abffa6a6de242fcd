//! Event handlers for platform events.

pub mod message;
pub mod ready;

pub use message::MessageHandler;
pub use ready::ReadyHandler;

use vstd::prelude::*;
use crate::framework::command_handler::CommandHandler;
use crate::framework::event_handler::{EventDispatcher, EventHandler};

verus! {

/// The handlers that ship with the library.
pub enum Handler<C> {
    /// The handler of the ready event.
    Ready(ReadyHandler),
    /// The handler of message events.
    Message(MessageHandler<C>),
}

impl<C> EventHandler for Handler<C> {
    fn event_type(&self) -> (r: &'static str)
        ensures
            r@ == match self {
                Handler::Ready(_) => "ready"@,
                Handler::Message(_) => "message"@,
            },
    {
        match self {
            Handler::Ready(handler) => handler.event_type(),
            Handler::Message(handler) => handler.event_type(),
        }
    }
}

/// Register all event handlers with the event dispatcher: the ready handler
/// for `"ready"` and a message handler around `command_handler` for
/// `"message"`. Handlers registered before stay, and stay first.
pub fn register_events<C>(
    dispatcher: &mut EventDispatcher<Handler<C>>,
    command_handler: CommandHandler<C>,
)
    requires
        old(dispatcher).wf(),
    ensures
        final(dispatcher).wf(),
        final(dispatcher).handlers("ready"@) == old(dispatcher).handlers("ready"@).push(
            Handler::Ready(ReadyHandler),
        ),
        final(dispatcher).handlers("message"@).len() == old(dispatcher).handlers("message"@).len()
            + 1,
        final(dispatcher).handlers("message"@).drop_last() == old(dispatcher).handlers(
            "message"@,
        ),
        final(dispatcher).handlers("message"@).last() matches Handler::Message(h) && h.router()
            == command_handler,
        forall|t: Seq<char>|
            t != "ready"@ && t != "message"@ ==> #[trigger] final(dispatcher).handlers(t) == old(
                dispatcher,
            ).handlers(t),
{
    proof {
        reveal_strlit("ready");
        reveal_strlit("message");
        assert("ready"@.len() != "message"@.len());
    }
    let ready = Handler::Ready(ReadyHandler);
    let ready_type = ready.event_type();
    dispatcher.register(ready_type, ready);
    let message = Handler::Message(MessageHandler::new(command_handler));
    let message_type = message.event_type();
    dispatcher.register(message_type, message);
    proof {
        let before = old(dispatcher).handlers("message"@);
        assert(final(dispatcher).handlers("message"@).drop_last() =~= before);
    }
}

} // verus!
