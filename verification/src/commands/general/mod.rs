//! General utility commands for the bot.

pub mod ping;

pub use ping::PingCommand;

use vstd::prelude::*;
use crate::framework::command_handler::{CommandHandler, RegistrationError};
use crate::framework::registry::{all_fresh, first_collision};
use crate::commands::general::ping::ping_descriptor;

verus! {

/// Register all general commands with the command handler: the ping command.
/// Fails, and registers nothing, where the handler knows a command "ping"
/// already.
pub fn register_commands(handler: &mut CommandHandler<PingCommand>) -> (r: Result<
    (),
    RegistrationError,
>)
    requires
        old(handler).wf(),
    ensures
        final(handler).wf(),
        match r {
            Ok(()) => {
                &&& all_fresh(old(handler)@.descriptors, ping_descriptor().normalized().keys())
                &&& final(handler)@.descriptors == old(handler)@.descriptors.push(
                    ping_descriptor().normalized(),
                )
                &&& final(handler)@.commands == old(handler)@.commands.push(PingCommand)
                &&& final(handler)@.prefix == old(handler)@.prefix
            },
            Err(e) => {
                &&& first_collision(old(handler)@.descriptors, ping_descriptor().normalized().keys())
                    matches Some(j)
                &&& e.key@ == ping_descriptor().normalized().keys()[j]
                &&& final(handler)@ == old(handler)@
            },
        },
{
    let command = PingCommand;
    let descriptor = command.descriptor();
    handler.register(descriptor, command)
}

} // verus!
