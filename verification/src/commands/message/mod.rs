//! Message-based commands: cutting a message into a command word and its
//! arguments, and deciding whether its author may run a command.

pub mod ping;

pub use ping::PingCommand;

use vstd::prelude::*;
use crate::commands::command_trait::{CommandError, CommandErrorView, CommandInfo, CommandResult};
use crate::models::message::InboundMessage;
use crate::models::permissions::Permissions;
use crate::utils::text::{
    lowercase_of, spans_text, split_whitespace, starts_with_at, string_of, to_chars,
    to_lowercase, word_spans,
};

verus! {

/// The words of a message that starts with `prefix`: what follows the prefix,
/// cut at white space. The prefix is removed once: where it is repeated, the
/// second prefix is part of the first word. `None` where the message does not
/// start with the prefix.
pub open spec fn command_words(content: Seq<char>, prefix: Seq<char>) -> Option<Seq<Seq<char>>> {
    if prefix.is_prefix_of(content) {
        Some(split_whitespace(content.skip(prefix.len() as int)))
    } else {
        None
    }
}

/// The command word and the arguments of a message: the first of its
/// [`command_words`] and the rest. `None` where the message does not start with
/// the prefix or holds nothing but the prefix and white space.
pub open spec fn parsed_command(content: Seq<char>, prefix: Seq<char>) -> Option<
    (Seq<char>, Seq<Seq<char>>),
> {
    match command_words(content, prefix) {
        Some(words) => if words.len() == 0 {
            None
        } else {
            Some((words[0], words.skip(1)))
        },
        None => None,
    }
}

/// The character sequences of a list of string slices.
pub open spec fn texts(slices: Seq<&str>) -> Seq<Seq<char>> {
    Seq::new(slices.len(), |i: int| slices[i]@)
}

/// Where the [`command_words`] of the message `cs` lie in it.
pub fn command_spans(cs: &Vec<char>, prefix: &Vec<char>) -> (r: Option<Vec<(usize, usize)>>)
    ensures
        match r {
            Some(spans) => {
                &&& command_words(cs@, prefix@) == Some(spans_text(cs@, spans@))
                &&& forall|k: int|
                    0 <= k < spans@.len() ==> (#[trigger] spans@[k]).0 < spans@[k].1 <= cs.len()
            },
            None => command_words(cs@, prefix@) is None,
        },
{
    assert(cs@.skip(0) =~= cs@);
    if !starts_with_at(cs, 0, prefix) {
        return None;
    }
    Some(word_spans(cs, prefix.len()))
}

/// Parses the command word and the arguments out of a message.
///
/// Returns `None` where `content` does not start with `prefix`, or holds no
/// word after it. Otherwise the command is the first word in lowercase, and
/// the other words are the arguments, in order and in the case they were
/// written in.
pub fn parse_args<'a>(content: &'a str, prefix: &str) -> (r: Option<(String, Vec<&'a str>)>)
    ensures
        match r {
            Some((command, args)) => {
                &&& parsed_command(content@, prefix@) matches Some((word, rest))
                &&& command@ == lowercase_of(word)
                &&& texts(args@) == rest
            },
            None => parsed_command(content@, prefix@) is None,
        },
{
    let cs = to_chars(content);
    let ps = to_chars(prefix);
    let spans = match command_spans(&cs, &ps) {
        Some(spans) => spans,
        None => {
            return None;
        },
    };
    if spans.len() == 0 {
        return None;
    }
    let ghost words = spans_text(cs@, spans@);
    let word = string_of(&cs, spans[0].0, spans[0].1);
    let command = to_lowercase(word.as_str());
    let mut args: Vec<&'a str> = Vec::new();
    let mut i: usize = 1;
    while i < spans.len()
        invariant
            1 <= i <= spans.len(),
            cs@ == content@,
            words == spans_text(cs@, spans@),
            forall|k: int|
                0 <= k < spans@.len() ==> (#[trigger] spans@[k]).0 < spans@[k].1 <= cs.len(),
            args@.len() == i - 1,
            forall|k: int| 0 <= k < args@.len() ==> (#[trigger] args@[k])@ == words[k + 1],
        decreases spans.len() - i,
    {
        let (from, to) = spans[i];
        let arg = content.substring_char(from, to);
        args.push(arg);
        i += 1;
    }
    assert(texts(args@) =~= words.skip(1));
    Some((command, args))
}

/// Whether a message is a command candidate: whether its text starts with
/// `prefix`.
pub fn is_command(msg: &InboundMessage, prefix: &str) -> (b: bool)
    ensures
        b == prefix@.is_prefix_of(msg.content@),
{
    let cs = to_chars(msg.content.as_str());
    let ps = to_chars(prefix);
    assert(cs@.skip(0) =~= cs@);
    starts_with_at(&cs, 0, &ps)
}

/// What the permission gate decides about one invocation.
#[derive(Debug)]
pub enum Gate {
    /// The author may run the command.
    Pass,
    /// The author's permissions in the guild are not known yet: they have to
    /// be fetched from the platform and handed to [`validate_member`].
    Fetch { guild_id: u64, user_id: u64 },
    /// The author may not run the command.
    Refuse(CommandError),
}

/// A [`Gate`] with the error seen through its view.
pub enum GateView {
    Pass,
    Fetch { guild_id: u64, user_id: u64 },
    Refuse(CommandErrorView),
}

impl View for Gate {
    type V = GateView;

    open spec fn view(&self) -> GateView {
        match self {
            Gate::Pass => GateView::Pass,
            Gate::Fetch { guild_id, user_id } => GateView::Fetch {
                guild_id: *guild_id,
                user_id: *user_id,
            },
            Gate::Refuse(e) => GateView::Refuse(e@),
        }
    }
}

/// The decision of the permission gate.
///
/// An owner-only command is refused to everyone outside `owners`, with an
/// empty permission set in the error. A command that requires permissions is
/// checked only for messages sent in a guild: against the permissions the
/// message carries, or, where it carries none, after they have been fetched.
pub open spec fn gate(
    msg: InboundMessage,
    required: Permissions,
    owner_only: bool,
    owners: Seq<u64>,
) -> GateView {
    if owner_only && !owners.contains(msg.author_id) {
        GateView::Refuse(CommandErrorView::MissingPermissions(Permissions { bits: 0 }))
    } else if required.bits == 0 {
        GateView::Pass
    } else {
        match (msg.guild_id, msg.member_permissions) {
            (None, _) => GateView::Pass,
            (Some(_), Some(held)) => if held.is_superset_of(required) {
                GateView::Pass
            } else {
                GateView::Refuse(CommandErrorView::MissingPermissions(required))
            },
            (Some(guild_id), None) => GateView::Fetch { guild_id, user_id: msg.author_id },
        }
    }
}

/// Whether `id` occurs in `ids`.
pub fn contains_id(ids: &[u64], id: u64) -> (b: bool)
    ensures
        b == ids@.contains(id),
{
    let mut i: usize = 0;
    while i < ids.len()
        invariant
            i <= ids.len(),
            forall|j: int| 0 <= j < i ==> ids@[j] != id,
        decreases ids.len() - i,
    {
        if ids[i] == id {
            return true;
        }
        i += 1;
    }
    false
}

/// Runs the permission gate for one invocation: see [`gate`].
pub fn validate_command(
    msg: &InboundMessage,
    required_permissions: Permissions,
    owner_only: bool,
    owners: &[u64],
) -> (r: Gate)
    ensures
        r@ == gate(*msg, required_permissions, owner_only, owners@),
{
    if owner_only && !contains_id(owners, msg.author_id) {
        return Gate::Refuse(CommandError::MissingPermissions(Permissions::empty()));
    }
    if required_permissions.is_empty() {
        return Gate::Pass;
    }
    match msg.guild_id {
        None => Gate::Pass,
        Some(guild_id) => match msg.member_permissions {
            Some(held) => if held.contains(required_permissions) {
                Gate::Pass
            } else {
                Gate::Refuse(CommandError::MissingPermissions(required_permissions))
            },
            None => Gate::Fetch { guild_id, user_id: msg.author_id },
        },
    }
}

/// What the permission gate decides once the platform has answered a [`Gate::Fetch`].
///
/// `fetched` is the answer: the member's permissions, `None` where the
/// platform knows no such member or no permissions for them, or the
/// platform's error text. An error becomes `SerenityError`; known permissions
/// that do not include `required` become `MissingPermissions(required)`;
/// everything else passes.
pub open spec fn member_gate(
    required: Permissions,
    fetched: Result<Option<Permissions>, Seq<char>>,
) -> Result<(), CommandErrorView> {
    match fetched {
        Err(reason) => Err(CommandErrorView::SerenityError(reason)),
        Ok(None) => Ok(()),
        Ok(Some(held)) => if held.is_superset_of(required) {
            Ok(())
        } else {
            Err(CommandErrorView::MissingPermissions(required))
        },
    }
}

/// The view of what the platform answered to a permission fetch.
pub open spec fn fetched_view(fetched: Result<Option<Permissions>, String>) -> Result<
    Option<Permissions>,
    Seq<char>,
> {
    match fetched {
        Ok(held) => Ok(held),
        Err(reason) => Err(reason@),
    }
}

/// Finishes the permission gate with the platform's answer: see
/// [`member_gate`].
pub fn validate_member(
    required_permissions: Permissions,
    fetched: Result<Option<Permissions>, String>,
) -> (r: CommandResult<()>)
    ensures
        match r {
            Ok(()) => member_gate(required_permissions, fetched_view(fetched)) == Ok::<
                (),
                CommandErrorView,
            >(()),
            Err(e) => member_gate(required_permissions, fetched_view(fetched)) == Err::<
                (),
                CommandErrorView,
            >(e@),
        },
{
    match fetched {
        Err(reason) => Err(CommandError::SerenityError(reason)),
        Ok(None) => Ok(()),
        Ok(Some(held)) => if held.contains(required_permissions) {
            Ok(())
        } else {
            Err(CommandError::MissingPermissions(required_permissions))
        },
    }
}

/// Get all available message commands, in the order they are looked up in.
pub fn get_commands() -> (commands: Vec<PingCommand>)
    ensures
        commands@.len() == 1,
{
    let mut commands: Vec<PingCommand> = Vec::new();
    commands.push(PingCommand::default());
    commands
}

/// Find a message command by name. The name is the command word as
/// [`parse_args`] returns it, in lowercase, and is compared as it is: only
/// "ping" finds the ping command.
pub fn get_command(name: &str) -> (found: Option<PingCommand>)
    ensures
        found is Some <==> name@ == "ping"@,
{
    let commands = get_commands();
    let wanted = name.to_string();
    let mut i: usize = 0;
    while i < commands.len()
        invariant
            i <= commands.len(),
            commands@.len() == 1,
            wanted@ == name@,
            i > 0 ==> name@ != "ping"@,
        decreases commands.len() - i,
    {
        if commands[i].name().to_string() == wanted {
            return Some(commands[i]);
        }
        i += 1;
    }
    None
}

} // verus!
