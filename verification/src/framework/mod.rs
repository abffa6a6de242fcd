//! Core bot framework components for handling commands and events.

pub mod command_handler;
pub mod context;
pub mod event_handler;
pub mod registry;

pub use command_handler::CommandHandler;
pub use event_handler::EventDispatcher;

use std::sync::Arc;
use vstd::prelude::*;
use crate::commands::general::ping::{ping_descriptor, PingCommand};
use crate::commands::register_commands;
use crate::events::{register_events, Handler, ReadyHandler};
use crate::framework::registry::{all_fresh, first_collision};

verus! {

/// Framework configuration for the bot.
pub struct Framework<C> {
    /// Handles command registration and execution.
    pub command_handler: CommandHandler<C>,
    /// Dispatches events to registered listeners.
    pub event_dispatcher: EventDispatcher<Handler<C>>,
}

impl<C> Framework<C> {
    /// Both registries hold their invariants.
    pub open spec fn wf(&self) -> bool {
        self.command_handler.wf() && self.event_dispatcher.wf()
    }

    /// Creates a new Framework instance: no command, no handler, the default
    /// prefix.
    pub fn new() -> (framework: Self)
        ensures
            framework.wf(),
            framework.command_handler@.commands.len() == 0,
            framework.command_handler@.descriptors.len() == 0,
            framework.command_handler@.prefix == "!"@,
            forall|t: Seq<char>| (#[trigger] framework.event_dispatcher.handlers(t)).len() == 0,
    {
        Self { command_handler: CommandHandler::new(), event_dispatcher: EventDispatcher::new() }
    }

    /// Get an Arc reference to this Framework for sharing across event
    /// handlers.
    pub fn arc(self) -> (shared: Arc<Self>)
        ensures
            *shared == self,
    {
        Arc::new(self)
    }
}

impl Framework<PingCommand> {
    /// Registers all commands and event handlers.
    ///
    /// The commands that ship with the library are registered with the command
    /// handler. The command handler then moves into the message handler, which
    /// is registered with the dispatcher next to the ready handler; the
    /// framework is left with a fresh command handler. This succeeds exactly
    /// where the keys of the shipped commands are all fresh. Where a shipped
    /// command collides with one that is registered already, the first key in
    /// use is returned and nothing changes at all.
    pub fn register_all(&mut self) -> (r: Result<(), command_handler::RegistrationError>)
        requires
            old(self).wf(),
        ensures
            final(self).wf(),
            match r {
                Ok(()) => {
                    &&& all_fresh(
                        old(self).command_handler@.descriptors,
                        ping_descriptor().normalized().keys(),
                    )
                    &&& final(self).command_handler@.commands.len() == 0
                    &&& final(self).command_handler@.prefix == "!"@
                    &&& final(self).event_dispatcher.handlers("ready"@) == old(
                        self,
                    ).event_dispatcher.handlers("ready"@).push(Handler::Ready(ReadyHandler))
                    &&& final(self).event_dispatcher.handlers("message"@).len() == old(
                        self,
                    ).event_dispatcher.handlers("message"@).len() + 1
                    &&& final(self).event_dispatcher.handlers("message"@).drop_last() == old(
                        self,
                    ).event_dispatcher.handlers("message"@)
                    &&& forall|t: Seq<char>|
                        t != "ready"@ && t != "message"@ ==> #[trigger] final(self).event_dispatcher.handlers(
                            t,
                        ) == old(self).event_dispatcher.handlers(t)
                    &&& final(self).event_dispatcher.handlers("message"@).last() matches Handler::Message(
                        h,
                    )
                    &&& h.router().wf()
                    &&& h.router()@.descriptors == old(self).command_handler@.descriptors.push(
                        ping_descriptor().normalized(),
                    )
                    &&& h.router()@.commands == old(self).command_handler@.commands.push(
                        PingCommand,
                    )
                    &&& h.router()@.prefix == old(self).command_handler@.prefix
                },
                Err(e) => {
                    &&& !all_fresh(
                        old(self).command_handler@.descriptors,
                        ping_descriptor().normalized().keys(),
                    )
                    &&& first_collision(
                        old(self).command_handler@.descriptors,
                        ping_descriptor().normalized().keys(),
                    ) matches Some(j)
                    &&& e.key@ == ping_descriptor().normalized().keys()[j]
                    &&& final(self).command_handler@ == old(self).command_handler@
                    &&& forall|t: Seq<char>| #[trigger]
                        final(self).event_dispatcher.handlers(t) == old(
                            self,
                        ).event_dispatcher.handlers(t)
                },
            },
    {
        match register_commands(&mut self.command_handler) {
            Ok(()) => {},
            Err(e) => {
                return Err(e);
            },
        }
        let mut command_handler = CommandHandler::new();
        core::mem::swap(&mut self.command_handler, &mut command_handler);
        register_events(&mut self.event_dispatcher, command_handler);
        Ok(())
    }
}

} // verus!
