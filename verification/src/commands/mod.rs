//! Command modules: what a command is, how its text is parsed, and the
//! commands that ship with the library.

pub mod command_trait;
pub mod general;
pub mod message;

pub use command_trait::{check_permissions, CommandError, CommandErrorView, CommandInfo, CommandResult};

use vstd::prelude::*;
use crate::commands::general::ping::{ping_descriptor, PingCommand};
use crate::framework::command_handler::{CommandHandler, RegistrationError};
use crate::framework::registry::{all_fresh, first_collision};

verus! {

/// Register all commands with the command handler: the general commands.
pub fn register_commands(handler: &mut CommandHandler<PingCommand>) -> (r: Result<
    (),
    RegistrationError,
>)
    requires
        old(handler).wf(),
    ensures
        final(handler).wf(),
        match r {
            Ok(()) => {
                &&& all_fresh(old(handler)@.descriptors, ping_descriptor().normalized().keys())
                &&& final(handler)@.descriptors == old(handler)@.descriptors.push(
                    ping_descriptor().normalized(),
                )
                &&& final(handler)@.commands == old(handler)@.commands.push(PingCommand)
                &&& final(handler)@.prefix == old(handler)@.prefix
            },
            Err(e) => {
                &&& first_collision(old(handler)@.descriptors, ping_descriptor().normalized().keys())
                    matches Some(j)
                &&& e.key@ == ping_descriptor().normalized().keys()[j]
                &&& final(handler)@ == old(handler)@
            },
        },
{
    general::register_commands(handler)
}

} // verus!
