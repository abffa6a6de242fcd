//! Handler for Message events.

use vstd::prelude::*;
use crate::framework::command_handler::{route, CommandHandler, Discard, Routing, RoutingView};
use crate::framework::event_handler::EventHandler;
use crate::models::config::BotConfig;
use crate::models::message::InboundMessage;

verus! {

/// Handles Message events sent by users.
pub struct MessageHandler<C> {
    /// The command handler to process commands.
    command_handler: CommandHandler<C>,
}

impl<C> EventHandler for MessageHandler<C> {
    fn event_type(&self) -> (r: &'static str)
        ensures
            r@ == "message"@,
    {
        "message"
    }
}

impl<C> MessageHandler<C> {
    /// The command handler that messages are routed by.
    pub closed spec fn router(&self) -> CommandHandler<C> {
        self.command_handler
    }

    /// Create a new MessageHandler with the given CommandHandler.
    pub fn new(command_handler: CommandHandler<C>) -> (handler: Self)
        ensures
            handler.router() == command_handler,
    {
        Self { command_handler }
    }

    /// The command handler that messages are routed by.
    pub fn command_handler(&self) -> (h: &CommandHandler<C>)
        ensures
            *h == self.router(),
    {
        &self.command_handler
    }

    /// Handles a message: routes it by the command handler. Messages of
    /// automated accounts are skipped.
    pub fn on_message<'a>(&self, msg: &'a InboundMessage, config: &'a BotConfig) -> (r: Routing<'a>)
        requires
            self.router().wf(),
        ensures
            r@ == route(self.router()@.descriptors, self.router()@.prefix, config.owners@, *msg),
            msg.author_is_bot ==> r@ == RoutingView::Discard(Discard::BotAuthor),
            r.invocation() matches Some(invocation) ==> {
                &&& invocation.command < self.router()@.commands.len()
                &&& invocation.name@ == self.router()@.descriptors[invocation.command as int].name
                &&& invocation.context.msg == msg
                &&& invocation.context.config == config
            },
    {
        if msg.author_is_bot {
            return Routing::Discard(Discard::BotAuthor);
        }
        self.command_handler.handle_message(msg, config)
    }
}

} // verus!
