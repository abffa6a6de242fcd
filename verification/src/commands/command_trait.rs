//! The metadata every command carries and the errors a command can end with.

use vstd::prelude::*;
use crate::models::message::InboundMessage;
use crate::models::permissions::{permission_names, Permissions};

verus! {

/// Errors that can occur during command execution.
#[derive(Debug)]
pub enum CommandError {
    /// Command was not found in the registry.
    NotFound,
    /// User lacks required permissions to execute the command.
    MissingPermissions(Permissions),
    /// Command arguments were invalid or improperly formatted.
    InvalidArguments(String),
    /// An error occurred during command execution.
    ExecutionError(String),
    /// A call to the chat platform failed; the text is the platform's report.
    SerenityError(String),
}

/// A [`CommandError`] with its texts as character sequences.
pub enum CommandErrorView {
    NotFound,
    MissingPermissions(Permissions),
    InvalidArguments(Seq<char>),
    ExecutionError(Seq<char>),
    SerenityError(Seq<char>),
}

impl CommandErrorView {
    /// The line of text that describes the error to a person.
    pub open spec fn message(self) -> Seq<char> {
        match self {
            CommandErrorView::NotFound => "Command not found"@,
            CommandErrorView::MissingPermissions(p) => "Missing required permissions: "@
                + permission_names(p.bits),
            CommandErrorView::InvalidArguments(reason) => "Invalid arguments: "@ + reason,
            CommandErrorView::ExecutionError(reason) => "Error executing command: "@ + reason,
            CommandErrorView::SerenityError(reason) => "Discord API error: "@ + reason,
        }
    }
}

impl View for CommandError {
    type V = CommandErrorView;

    open spec fn view(&self) -> CommandErrorView {
        match self {
            CommandError::NotFound => CommandErrorView::NotFound,
            CommandError::MissingPermissions(p) => CommandErrorView::MissingPermissions(*p),
            CommandError::InvalidArguments(reason) => CommandErrorView::InvalidArguments(reason@),
            CommandError::ExecutionError(reason) => CommandErrorView::ExecutionError(reason@),
            CommandError::SerenityError(reason) => CommandErrorView::SerenityError(reason@),
        }
    }
}

impl CommandError {
    /// The line of text that describes the error to a person.
    pub fn message(&self) -> (s: String)
        ensures
            s@ == self@.message(),
    {
        match self {
            CommandError::NotFound => "Command not found".to_string(),
            CommandError::MissingPermissions(p) => {
                let names = p.names();
                "Missing required permissions: ".to_string().concat(names.as_str())
            },
            CommandError::InvalidArguments(reason) => "Invalid arguments: ".to_string().concat(
                reason.as_str(),
            ),
            CommandError::ExecutionError(reason) => "Error executing command: ".to_string().concat(
                reason.as_str(),
            ),
            CommandError::SerenityError(reason) => "Discord API error: ".to_string().concat(
                reason.as_str(),
            ),
        }
    }
}

/// Result type for command operations.
pub type CommandResult<T> = Result<T, CommandError>;

/// The metadata that every command reports of itself.
///
/// What a method returns is for the command to say; only the default of
/// [`CommandInfo::owner_only`] is fixed here.
pub trait CommandInfo {
    /// Returns the command's name, used for invocation.
    fn name(&self) -> &'static str;

    /// Returns a brief description of what the command does.
    fn description(&self) -> &'static str;

    /// Returns the category this command belongs to (e.g., "Utility",
    /// "Moderation").
    fn category(&self) -> &'static str;

    /// Returns the permissions required to use this command.
    fn required_permissions(&self) -> Permissions;

    /// Returns whether this command can only be used by bot owners. Defaults to
    /// false if not overridden.
    fn owner_only(&self) -> (r: bool)
        default_ensures
            !r,
    {
        false
    }
}

/// Whether the permissions that `msg` carries for its author are known and
/// fall short of `required`.
pub open spec fn lacks_permissions(msg: InboundMessage, required: Permissions) -> bool {
    msg.member_permissions matches Some(held) && !held.is_superset_of(required)
}

/// Checks the author's permissions, as far as the message carries them,
/// against `required`. Fails with `MissingPermissions(required)` exactly when
/// the message carries permissions and they do not include `required`; a
/// message without permissions passes.
pub fn check_permissions(msg: &InboundMessage, required: Permissions) -> (r: CommandResult<()>)
    ensures
        match r {
            Ok(()) => !lacks_permissions(*msg, required),
            Err(e) => lacks_permissions(*msg, required) && e@
                == CommandErrorView::MissingPermissions(required),
        },
{
    if let Some(permissions) = msg.member_permissions {
        if !permissions.contains(required) {
            return Err(CommandError::MissingPermissions(required));
        }
    }
    Ok(())
}

} // verus!
