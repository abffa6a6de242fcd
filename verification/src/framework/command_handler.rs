//! Command registration and routing.
//!
//! A [`CommandHandler`] owns the registry of commands and the prefix. It turns
//! an inbound message into at most one command invocation; running the
//! command is left to the caller.

use vstd::prelude::*;
use vstd::hash_map::StringHashMap;
use crate::commands::command_trait::{CommandError, CommandErrorView, CommandResult};
use crate::commands::message::{
    command_spans, fetched_view, gate, member_gate, parsed_command, validate_command,
    validate_member, Gate, GateView,
};
use crate::models::config::BotConfig;
use crate::models::message::InboundMessage;
use crate::models::permissions::Permissions;
use crate::utils::constants::DEFAULT_PREFIX;
use crate::utils::text::{
    is_word, lemma_words_are_solid, lowercase_of, spans_text, split_whitespace, string_of,
    to_chars, to_lowercase,
};

use crate::framework::registry::{
    all_fresh, collides_at, descriptors_view, first_collision, is_first_collision,
    is_key_position, is_taken, key_at, keys_distinct, lemma_first_collision,
    lemma_resolve_unique, occurs_before, reports, resolve, resolves_to, strings_view,
};

pub use crate::framework::registry::{CommandDescriptor, DescriptorView, RegistrationError};

verus! {

/// Trait for implementing commands.
///
/// Only the name has to be given. The registry reads the methods once, at
/// registration, into a [`CommandDescriptor`]: what it stores is what the
/// methods of the command ensure of their results.
pub trait Command {
    /// The command name (used for invocation).
    fn name(&self) -> &str;

    /// Optional description of the command. Empty unless the command gives
    /// one.
    fn description(&self) -> (r: &str)
        default_ensures
            r@.len() == 0,
    {
        proof {
            reveal_strlit("");
        }
        ""
    }

    /// Optional usage information. Empty unless the command gives some.
    fn usage(&self) -> (r: &str)
        default_ensures
            r@.len() == 0,
    {
        proof {
            reveal_strlit("");
        }
        ""
    }

    /// Optional list of aliases for the command. None unless the command
    /// gives some.
    fn aliases(&self) -> (r: Vec<&str>)
        default_ensures
            r@.len() == 0,
    {
        Vec::new()
    }

    /// The permissions a guild member needs to run the command. None unless
    /// the command asks for some.
    fn required_permissions(&self) -> (r: Permissions)
        default_ensures
            r.bits == 0,
    {
        Permissions::empty()
    }

    /// Whether only bot owners may run the command. Open to everyone unless
    /// the command says otherwise.
    fn owner_only(&self) -> (r: bool)
        default_ensures
            !r,
    {
        false
    }
}

/// Context passed to command execution functions. Built afresh for every
/// invocation.
#[derive(Debug)]
pub struct CommandContext<'a> {
    /// The message that triggered the command.
    pub msg: &'a InboundMessage,
    /// Command arguments (space-separated words after the command).
    pub args: Vec<String>,
    /// The configuration of the bot.
    pub config: &'a BotConfig,
}

/// One command invocation that routing has decided on.
#[derive(Debug)]
pub struct Invocation<'a> {
    /// The number of the command in the registry.
    pub command: usize,
    /// The name the command is registered under.
    pub name: String,
    /// The context to run the command in.
    pub context: CommandContext<'a>,
}

/// Why a message leads to no command.
#[derive(Clone, Copy, Debug, PartialEq, Eq, Structural)]
pub enum Discard {
    /// The author is an automated account.
    BotAuthor,
    /// The message does not start with the prefix.
    NoPrefix,
    /// The message holds no word after the prefix.
    EmptyCommand,
    /// No command answers to the first word.
    NotFound,
}

/// What the router decides about a message.
#[derive(Debug)]
pub enum Routing<'a> {
    /// No command runs, and nothing is reported.
    Discard(Discard),
    /// The command was found but its author may not run it.
    Reject { command: usize, error: CommandError },
    /// The command was found; whether its author may run it depends on
    /// permissions that have to be fetched from the platform. The answer goes
    /// to [`CommandHandler::resume`].
    Fetch { invocation: Invocation<'a>, guild_id: u64, user_id: u64 },
    /// The command is to be run.
    Execute(Invocation<'a>),
}

/// A [`Routing`] over plain values.
pub enum RoutingView {
    Discard(Discard),
    Reject { command: int, error: CommandErrorView },
    Fetch { command: int, args: Seq<Seq<char>>, guild_id: u64, user_id: u64 },
    Execute { command: int, args: Seq<Seq<char>> },
}

impl<'a> View for Routing<'a> {
    type V = RoutingView;

    open spec fn view(&self) -> RoutingView {
        match self {
            Routing::Discard(reason) => RoutingView::Discard(*reason),
            Routing::Reject { command, error } => RoutingView::Reject {
                command: *command as int,
                error: error@,
            },
            Routing::Fetch { invocation, guild_id, user_id } => RoutingView::Fetch {
                command: invocation.command as int,
                args: strings_view(invocation.context.args@),
                guild_id: *guild_id,
                user_id: *user_id,
            },
            Routing::Execute(invocation) => RoutingView::Execute {
                command: invocation.command as int,
                args: strings_view(invocation.context.args@),
            },
        }
    }
}

impl<'a> Routing<'a> {
    /// The invocation that the routing holds, if it holds one.
    pub open spec fn invocation(self) -> Option<Invocation<'a>> {
        match self {
            Routing::Fetch { invocation, .. } => Some(invocation),
            Routing::Execute(invocation) => Some(invocation),
            _ => None,
        }
    }
}

/// What the router decides about `msg`, given the registered commands, the
/// prefix and the owners.
///
/// A message of an automated account, one that does not start with the prefix,
/// one with no word after the prefix, and one whose first word, in lowercase,
/// no command answers to, are discarded. Otherwise the first word names the
/// command, the other words are its arguments, and the permission gate
/// decides between running, fetching permissions first, and rejecting.
pub open spec fn route(
    ds: Seq<DescriptorView>,
    prefix: Seq<char>,
    owners: Seq<u64>,
    msg: InboundMessage,
) -> RoutingView {
    if msg.author_is_bot {
        RoutingView::Discard(Discard::BotAuthor)
    } else if !prefix.is_prefix_of(msg.content@) {
        RoutingView::Discard(Discard::NoPrefix)
    } else {
        match parsed_command(msg.content@, prefix) {
            None => RoutingView::Discard(Discard::EmptyCommand),
            Some((word, args)) => match resolve(ds, lowercase_of(word)) {
                None => RoutingView::Discard(Discard::NotFound),
                Some(i) => match gate(msg, ds[i].required_permissions, ds[i].owner_only, owners) {
                    GateView::Pass => RoutingView::Execute { command: i, args },
                    GateView::Fetch { guild_id, user_id } => RoutingView::Fetch {
                        command: i,
                        args,
                        guild_id,
                        user_id,
                    },
                    GateView::Refuse(error) => RoutingView::Reject { command: i, error },
                },
            },
        }
    }
}

/// What the router decides about a pending invocation once the platform has
/// answered the permission fetch.
pub open spec fn resumed(
    ds: Seq<DescriptorView>,
    command: int,
    args: Seq<Seq<char>>,
    fetched: Result<Option<Permissions>, Seq<char>>,
) -> RoutingView {
    match member_gate(ds[command].required_permissions, fetched) {
        Ok(()) => RoutingView::Execute { command, args },
        Err(error) => RoutingView::Reject { command, error },
    }
}

/// How an invocation ended, for the log. A failure is recorded here and goes
/// no further.
#[derive(Debug)]
pub struct Completion {
    /// The name of the command that ran.
    pub command: String,
    /// The message of the error the command ended with, if it failed.
    pub error: Option<String>,
}

impl<'a> Invocation<'a> {
    /// Records how the invocation ended.
    pub fn finish(&self, result: CommandResult<()>) -> (c: Completion)
        ensures
            c.command@ == self.name@,
            match result {
                Ok(()) => c.error is None,
                Err(e) => c.error matches Some(m) && m@ == e@.message(),
            },
    {
        let error = match result {
            Ok(()) => None,
            Err(e) => Some(e.message()),
        };
        Completion { command: self.name.clone(), error }
    }
}

/// Handles command registration and routing.
pub struct CommandHandler<C> {
    /// The commands, in registration order.
    commands: Vec<C>,
    /// What is known of each command, in the same order.
    descriptors: Vec<CommandDescriptor>,
    /// Maps command names to the number of the command.
    names: StringHashMap<usize>,
    /// Maps command aliases to their primary name.
    aliases: StringHashMap<String>,
    /// Command prefix.
    prefix: String,
}

/// What a registration of `command` under the descriptor `d` makes of a
/// registry, and how it ends.
///
/// It succeeds exactly where the lowercase keys of `d` are all fresh; the
/// normalized descriptor and the command are then appended, and the prefix
/// stays. Otherwise it fails with the first key that is in use, and the
/// registry stays as it was.
pub open spec fn registration<C>(
    before: CommandHandlerView<C>,
    after: CommandHandlerView<C>,
    d: DescriptorView,
    command: C,
    r: Result<(), RegistrationError>,
) -> bool {
    let keys = d.normalized().keys();
    match r {
        Ok(()) => {
            &&& all_fresh(before.descriptors, keys)
            &&& first_collision(before.descriptors, keys) is None
            &&& after.descriptors == before.descriptors.push(d.normalized())
            &&& after.commands == before.commands.push(command)
            &&& after.prefix == before.prefix
        },
        Err(e) => {
            &&& !all_fresh(before.descriptors, keys)
            &&& first_collision(before.descriptors, keys) matches Some(j)
            &&& e.key@ == keys[j]
            &&& after == before
        },
    }
}

/// What a registry is after a registration that leaves out a command whose
/// keys are not all fresh: the command was appended under the normalized
/// descriptor where the lowercase keys of `d` were all fresh, and the registry
/// is as it was otherwise.
pub open spec fn added_if_fresh<C>(
    before: CommandHandlerView<C>,
    after: CommandHandlerView<C>,
    d: DescriptorView,
    command: C,
) -> bool {
    if all_fresh(before.descriptors, d.normalized().keys()) {
        &&& after.descriptors == before.descriptors.push(d.normalized())
        &&& after.commands == before.commands.push(command)
        &&& after.prefix == before.prefix
    } else {
        after == before
    }
}

/// What a [`CommandHandler`] holds.
pub struct CommandHandlerView<C> {
    /// The commands, in registration order.
    pub commands: Seq<C>,
    /// The descriptor of each command, in the same order.
    pub descriptors: Seq<DescriptorView>,
    /// The command prefix.
    pub prefix: Seq<char>,
}

impl<C> View for CommandHandler<C> {
    type V = CommandHandlerView<C>;

    closed spec fn view(&self) -> CommandHandlerView<C> {
        CommandHandlerView {
            commands: self.commands@,
            descriptors: descriptors_view(self.descriptors@),
            prefix: self.prefix@,
        }
    }
}

/// The name map holds exactly the names, each with the number of its command.
spec fn names_agree(ds: Seq<DescriptorView>, names: Map<Seq<char>, usize>) -> bool {
    &&& forall|i: int|
        0 <= i < ds.len() ==> names.contains_key(#[trigger] key_at(ds, i, 0)) && names[key_at(
            ds,
            i,
            0,
        )] == i
    &&& forall|k: Seq<char>| #[trigger]
        names.contains_key(k) ==> names[k] < ds.len() && key_at(ds, names[k] as int, 0) == k
}

/// The alias map holds exactly the aliases, each with the name of its command.
spec fn aliases_agree(ds: Seq<DescriptorView>, aliases: Map<Seq<char>, String>) -> bool {
    &&& forall|i: int, b: int|
        is_key_position(ds, i, b) && b >= 1 ==> aliases.contains_key(#[trigger] key_at(ds, i, b))
            && aliases[key_at(ds, i, b)]@ == key_at(ds, i, 0)
    &&& forall|k: Seq<char>| #[trigger]
        aliases.contains_key(k) ==> exists|i: int, b: int|
            is_key_position(ds, i, b) && b >= 1 && #[trigger] key_at(ds, i, b) == k && aliases[k]@
                == key_at(ds, i, 0)
}

/// With maps that agree with the descriptors, the taken tokens are the keys of
/// the two maps.
proof fn lemma_taken_in_maps(
    ds: Seq<DescriptorView>,
    names: Map<Seq<char>, usize>,
    aliases: Map<Seq<char>, String>,
    key: Seq<char>,
)
    requires
        names_agree(ds, names),
        aliases_agree(ds, aliases),
    ensures
        is_taken(ds, key) <==> (names.contains_key(key) || aliases.contains_key(key)),
{
    if is_taken(ds, key) {
        let i = choose|i: int| resolves_to(ds, key, i);
        let a = choose|a: int| 0 <= a < ds[i].keys().len() && ds[i].keys()[a] == key;
        assert(key_at(ds, i, a) == key);
        assert(is_key_position(ds, i, a));
        if a == 0 {
            assert(names.contains_key(key_at(ds, i, 0)));
        } else {
            assert(aliases.contains_key(key_at(ds, i, a)));
        }
    }
    if names.contains_key(key) {
        let i = names[key] as int;
        assert(ds[i].keys()[0] == key);
        assert(resolves_to(ds, key, i));
    }
    if aliases.contains_key(key) {
        let (i, b) = choose|i: int, b: int|
            is_key_position(ds, i, b) && b >= 1 && #[trigger] key_at(ds, i, b) == key
                && aliases[key]@ == key_at(ds, i, 0);
        assert(ds[i].keys()[b] == key);
        assert(resolves_to(ds, key, i));
    }
}

/// Adding a command whose keys are all fresh keeps the keys distinct and the
/// lookup maps in agreement, once its name and aliases have been entered.
proof fn lemma_register(
    ds: Seq<DescriptorView>,
    names0: Map<Seq<char>, usize>,
    aliases0: Map<Seq<char>, String>,
    d: DescriptorView,
    names1: Map<Seq<char>, usize>,
    aliases1: Map<Seq<char>, String>,
)
    requires
        keys_distinct(ds),
        names_agree(ds, names0),
        aliases_agree(ds, aliases0),
        all_fresh(ds, d.keys()),
        ds.len() <= usize::MAX,
        names1 == names0.insert(d.name, ds.len() as usize),
        forall|k: Seq<char>|
            aliases1.contains_key(k) <==> aliases0.contains_key(k) || d.aliases.contains(k),
        forall|k: Seq<char>| aliases0.contains_key(k) ==> aliases1[k] == aliases0[k],
        forall|m: int| 0 <= m < d.aliases.len() ==> aliases1[#[trigger] d.aliases[m]]@ == d.name,
    ensures
        keys_distinct(ds.push(d)),
        names_agree(ds.push(d), names1),
        aliases_agree(ds.push(d), aliases1),
{
    let ds1 = ds.push(d);
    let n = ds.len() as int;
    let keys = d.keys();
    assert(ds1[n] == d);
    assert forall|i: int| 0 <= i < n implies #[trigger] ds1[i] == ds[i] by {}
    // A key of the new command is the key of no earlier command.
    assert forall|i: int, x: int, a: int|
        is_key_position(ds, i, x) && 0 <= a < keys.len() implies #[trigger] key_at(ds, i, x)
        != #[trigger] keys[a] by {
        if key_at(ds, i, x) == keys[a] {
            assert(ds[i].keys()[x] == keys[a]);
            assert(resolves_to(ds, keys[a], i));
            assert(collides_at(ds, keys, a));
        }
    }
    // The keys of the new command differ from each other.
    assert forall|a: int, b: int| 0 <= a < b < keys.len() implies #[trigger] keys[a]
        != #[trigger] keys[b] by {
        if keys[a] == keys[b] {
            assert(keys.take(b)[a] == keys[b]);
            assert(collides_at(ds, keys, b));
        }
    }
    assert forall|i: int, a: int, j: int, b: int|
        #![trigger key_at(ds1, i, a), key_at(ds1, j, b)]
        is_key_position(ds1, i, a) && is_key_position(ds1, j, b) && key_at(ds1, i, a) == key_at(
            ds1,
            j,
            b,
        ) implies i == j && a == b by {
        if i < n && j < n {
            assert(key_at(ds, i, a) == key_at(ds, j, b));
            assert(is_key_position(ds, i, a) && is_key_position(ds, j, b));
        } else if i < n {
            assert(key_at(ds, i, a) == keys[b]);
            assert(is_key_position(ds, i, a));
        } else if j < n {
            assert(key_at(ds, j, b) == keys[a]);
            assert(is_key_position(ds, j, b));
        } else {
            assert(keys[a] == keys[b]);
        }
    }
    assert(keys[0] == d.name);
    assert forall|i: int| 0 <= i < ds1.len() implies names1.contains_key(
        #[trigger] key_at(ds1, i, 0),
    ) && names1[key_at(ds1, i, 0)] == i by {
        if i < n {
            assert(key_at(ds1, i, 0) == key_at(ds, i, 0));
            assert(is_key_position(ds, i, 0));
            assert(key_at(ds, i, 0) != keys[0]);
        }
    }
    assert forall|k: Seq<char>| #[trigger] names1.contains_key(k) implies names1[k] < ds1.len()
        && key_at(ds1, names1[k] as int, 0) == k by {
        if k != d.name {
            assert(names0.contains_key(k));
            assert(key_at(ds1, names0[k] as int, 0) == key_at(ds, names0[k] as int, 0));
        }
    }
    assert forall|i: int, b: int| is_key_position(ds1, i, b) && b >= 1 implies aliases1.contains_key(
        #[trigger] key_at(ds1, i, b),
    ) && aliases1[key_at(ds1, i, b)]@ == key_at(ds1, i, 0) by {
        if i < n {
            assert(is_key_position(ds, i, b));
            assert(key_at(ds1, i, b) == key_at(ds, i, b));
            assert(key_at(ds1, i, 0) == key_at(ds, i, 0));
            assert(aliases0.contains_key(key_at(ds, i, b)));
        } else {
            assert(key_at(ds1, i, b) == d.aliases[b - 1]);
            assert(d.aliases.contains(d.aliases[b - 1]));
        }
    }
    assert forall|k: Seq<char>| #[trigger] aliases1.contains_key(k) implies exists|i: int, b: int|
        is_key_position(ds1, i, b) && b >= 1 && #[trigger] key_at(ds1, i, b) == k && aliases1[k]@
            == key_at(ds1, i, 0) by {
        if aliases0.contains_key(k) {
            let (i, b) = choose|i: int, b: int|
                is_key_position(ds, i, b) && b >= 1 && #[trigger] key_at(ds, i, b) == k
                    && aliases0[k]@ == key_at(ds, i, 0);
            assert(key_at(ds1, i, b) == k);
            assert(key_at(ds1, i, 0) == key_at(ds, i, 0));
            assert(is_key_position(ds1, i, b));
        } else {
            let m = choose|m: int| 0 <= m < d.aliases.len() && d.aliases[m] == k;
            assert(key_at(ds1, n, m + 1) == k);
            assert(is_key_position(ds1, n, m + 1));
            assert(aliases1[d.aliases[m]]@ == d.name);
        }
    }
}

impl<C> CommandHandler<C> {
    /// The invariant of the registry: every command has its descriptor, no
    /// token is a key twice, and the lookup maps agree with the descriptors, so
    /// that every alias leads to a registered name.
    pub closed spec fn wf(&self) -> bool {
        &&& self.commands@.len() == self.descriptors@.len()
        &&& keys_distinct(self@.descriptors)
        &&& names_agree(self@.descriptors, self.names@)
        &&& aliases_agree(self@.descriptors, self.aliases@)
    }

    /// What the invariant says of the view.
    pub proof fn lemma_wf(&self)
        requires
            self.wf(),
        ensures
            self@.commands.len() == self@.descriptors.len(),
            keys_distinct(self@.descriptors),
    {
    }

    /// Creates a new CommandHandler with the default prefix and no command.
    pub fn new() -> (handler: Self)
        ensures
            handler.wf(),
            handler@.commands.len() == 0,
            handler@.descriptors.len() == 0,
            handler@.prefix == "!"@,
    {
        let handler = Self {
            commands: Vec::new(),
            descriptors: Vec::new(),
            names: StringHashMap::new(),
            aliases: StringHashMap::new(),
            prefix: DEFAULT_PREFIX.to_string(),
        };
        handler
    }

    /// Sets the command prefix.
    pub fn with_prefix(self, prefix: String) -> (handler: Self)
        requires
            self.wf(),
        ensures
            handler.wf(),
            handler@.commands == self@.commands,
            handler@.descriptors == self@.descriptors,
            handler@.prefix == prefix@,
    {
        let mut handler = self;
        handler.prefix = prefix;
        handler
    }

    /// Get the current command prefix.
    pub fn prefix(&self) -> (prefix: &str)
        ensures
            prefix@ == self@.prefix,
    {
        self.prefix.as_str()
    }

    /// The number of the command that answers to `key`, taken as it is
    /// written.
    pub fn lookup(&self, key: &str) -> (r: Option<usize>)
        requires
            self.wf(),
        ensures
            match r {
                Some(i) => resolve(self@.descriptors, key@) == Some(i as int) && i
                    < self@.commands.len(),
                None => resolve(self@.descriptors, key@) is None,
            },
    {
        let ghost ds = self@.descriptors;
        match self.names.get(key) {
            Some(i) => {
                proof {
                    assert(key_at(ds, *i as int, 0) == key@);
                    assert(ds[*i as int].keys()[0] == key@);
                    lemma_resolve_unique(ds, key@, *i as int);
                }
                Some(*i)
            },
            None => match self.aliases.get(key) {
                Some(name) => {
                    proof {
                        let (i, b) = choose|i: int, b: int|
                            is_key_position(ds, i, b) && b >= 1 && #[trigger] key_at(ds, i, b)
                                == key@ && self.aliases@[key@]@ == key_at(ds, i, 0);
                        assert(ds[i].keys()[b] == key@);
                        lemma_resolve_unique(ds, key@, i);
                        assert(self.names@.contains_key(key_at(ds, i, 0)));
                    }
                    match self.names.get(name.as_str()) {
                        Some(i) => Some(*i),
                        None => None,
                    }
                },
                None => {
                    proof {
                        if is_taken(ds, key@) {
                            let i = choose|i: int| resolves_to(ds, key@, i);
                            let a = choose|a: int|
                                0 <= a < ds[i].keys().len() && ds[i].keys()[a] == key@;
                            assert(key_at(ds, i, a) == key@);
                            assert(is_key_position(ds, i, a));
                            if a == 0 {
                                assert(self.names@.contains_key(key_at(ds, i, 0)));
                            } else {
                                assert(self.aliases@.contains_key(key_at(ds, i, a)));
                            }
                        }
                    }
                    None
                },
            },
        }
    }
    /// Registers `command` under `descriptor`.
    ///
    /// The command is stored under the lowercase of its name and of each of
    /// its aliases, after the commands registered before it. Nothing is ever
    /// overwritten: where one of these keys is in use already, by an earlier
    /// command or earlier in the descriptor itself, the registration is
    /// refused with the first such key and the registry stays as it was.
    pub fn register(&mut self, descriptor: CommandDescriptor, command: C) -> (r: Result<
        (),
        RegistrationError,
    >)
        requires
            old(self).wf(),
        ensures
            final(self).wf(),
            match r {
                Ok(()) => {
                    &&& first_collision(old(self)@.descriptors, descriptor@.normalized().keys())
                        is None
                    &&& all_fresh(old(self)@.descriptors, descriptor@.normalized().keys())
                    &&& final(self)@.descriptors == old(self)@.descriptors.push(
                        descriptor@.normalized(),
                    )
                    &&& final(self)@.commands == old(self)@.commands.push(command)
                    &&& final(self)@.prefix == old(self)@.prefix
                },
                Err(e) => {
                    &&& first_collision(old(self)@.descriptors, descriptor@.normalized().keys())
                        matches Some(j)
                    &&& e.key@ == descriptor@.normalized().keys()[j]
                    &&& final(self)@ == old(self)@
                },
            },
    {
        let d = descriptor.normalize();
        let ghost ds = self@.descriptors;
        let ghost keys = d@.keys();
        proof {
            lemma_first_collision(ds, keys);
            assert(keys[0] == d.name@);
        }
        if self.lookup(d.name.as_str()).is_some() {
            proof {
                assert(is_taken(ds, keys[0]));
                assert(is_first_collision(ds, keys, 0));
            }
            return Err(RegistrationError { key: d.name });
        }
        assert(keys.take(0).len() == 0);
        let mut j: usize = 0;
        while j < d.aliases.len()
            invariant
                j <= d.aliases.len(),
                self.wf(),
                ds == self@.descriptors,
                self@ == old(self)@,
                keys == d@.keys(),
                d@ == descriptor@.normalized(),
                forall|k: int| 0 <= k <= j ==> !collides_at(ds, keys, k),
                forall|k: int| is_first_collision(ds, keys, k) ==> first_collision(ds, keys)
                    == Some(k),
            decreases d.aliases.len() - j,
        {
            let alias = &d.aliases[j];
            let taken = self.lookup(alias.as_str()).is_some();
            let same_as_name = *alias == d.name;
            let repeated = occurs_before(&d.aliases, j, alias);
            proof {
                let earlier = keys.take(j + 1);
                assert(keys[j + 1] == alias@);
                if same_as_name {
                    assert(earlier[0] == alias@);
                }
                if repeated {
                    let m = choose|m: int| 0 <= m < j && (#[trigger] d.aliases@[m])@ == alias@;
                    assert(earlier[m + 1] == alias@);
                }
                if earlier.contains(alias@) {
                    let x = choose|x: int| 0 <= x < earlier.len() && earlier[x] == alias@;
                    if x > 0 {
                        assert((#[trigger] d.aliases@[x - 1])@ == alias@);
                    }
                }
                assert(collides_at(ds, keys, j + 1) <==> (taken || same_as_name || repeated));
            }
            if taken || same_as_name || repeated {
                proof {
                    assert(is_first_collision(ds, keys, j + 1));
                }
                return Err(RegistrationError { key: alias.clone() });
            }
            j += 1;
        }
        assert(all_fresh(ds, keys));
        let index = self.commands.len();
        let ghost names0 = self.names@;
        let ghost aliases0 = self.aliases@;
        let ghost commands0 = self.commands@;
        let ghost descriptors0 = self.descriptors@;
        let ghost prefix0 = self.prefix@;
        proof {
            assert forall|m: int| 0 <= m < d.aliases@.len() implies !aliases0.contains_key(
                (#[trigger] d.aliases@[m])@,
            ) by {
                lemma_taken_in_maps(ds, names0, aliases0, d.aliases@[m]@);
                assert(keys[m + 1] == d.aliases@[m]@);
                assert(!collides_at(ds, keys, m + 1));
            }
        }
        self.names.insert(d.name.clone(), index);
        let mut j: usize = 0;
        while j < d.aliases.len()
            invariant
                j <= d.aliases.len(),
                self.commands@ == commands0,
                self.descriptors@ == descriptors0,
                self.prefix@ == prefix0,
                self.names@ == names0.insert(d.name@, index),
                forall|k: Seq<char>|
                    self.aliases@.contains_key(k) <==> aliases0.contains_key(k) || exists|m: int|
                        0 <= m < j && (#[trigger] d.aliases@[m])@ == k,
                forall|k: Seq<char>|
                    aliases0.contains_key(k) ==> #[trigger] self.aliases@[k] == aliases0[k],
                forall|m: int| 0 <= m < j ==> self.aliases@[(#[trigger] d.aliases@[m])@]@ == d.name@,
                forall|m: int|
                    0 <= m < d.aliases@.len() ==> !aliases0.contains_key(
                        (#[trigger] d.aliases@[m])@,
                    ),
            decreases d.aliases.len() - j,
        {
            let ghost before = self.aliases@;
            self.aliases.insert(d.aliases[j].clone(), d.name.clone());
            proof {
                let key = d.aliases@[j as int]@;
                assert(self.aliases@ == before.insert(key, self.aliases@[key]));
                assert forall|k: Seq<char>| self.aliases@.contains_key(k) <==> aliases0.contains_key(
                    k,
                ) || exists|m: int| 0 <= m < j + 1 && (#[trigger] d.aliases@[m])@ == k by {
                    if k == key {
                        assert(d.aliases@[j as int]@ == k);
                    } else if before.contains_key(k) && !aliases0.contains_key(k) {
                        let m = choose|m: int| 0 <= m < j && (#[trigger] d.aliases@[m])@ == k;
                        assert(0 <= m < j + 1 && d.aliases@[m]@ == k);
                    } else if exists|m: int| 0 <= m < j + 1 && (#[trigger] d.aliases@[m])@ == k {
                        let m = choose|m: int| 0 <= m < j + 1 && (#[trigger] d.aliases@[m])@ == k;
                        assert(m < j);
                        assert(before.contains_key(k));
                    }
                }
            }
            j += 1;
        }
        proof {
            let aliases1 = self.aliases@;
            assert forall|k: Seq<char>|
                aliases1.contains_key(k) <==> aliases0.contains_key(k) || d@.aliases.contains(
                    k,
                ) by {
                if d@.aliases.contains(k) {
                    let m = choose|m: int| 0 <= m < d@.aliases.len() && d@.aliases[m] == k;
                    assert(d.aliases@[m]@ == k);
                }
                if exists|m: int| 0 <= m < j && (#[trigger] d.aliases@[m])@ == k {
                    let m = choose|m: int| 0 <= m < j && (#[trigger] d.aliases@[m])@ == k;
                    assert(d@.aliases[m] == k);
                }
            }
            assert forall|m: int| 0 <= m < d@.aliases.len() implies aliases1[#[trigger] d@.aliases[m]]@
                == d@.name by {
                assert(d@.aliases[m] == d.aliases@[m]@);
            }
            lemma_register(ds, names0, aliases0, d@, self.names@, aliases1);
        }
        let ghost dv = d@;
        self.descriptors.push(d);
        self.commands.push(command);
        proof {
            assert(descriptors_view(self.descriptors@) =~= ds.push(dv));
        }
        Ok(())
    }

    /// Registers a command under the metadata it reports of itself.
    ///
    /// The descriptor is read from the command, and the registration goes as
    /// [`CommandHandler::register`] does under that descriptor: the command
    /// is stored where all its lowercase keys are fresh, and refused with the
    /// first key in use otherwise. See [`registration`].
    pub fn register_command(&mut self, command: C) -> (r: Result<(), RegistrationError>) where
        C: Command,

        requires
            old(self).wf(),
        ensures
            final(self).wf(),
            exists|d: DescriptorView|
                reports(&command, d) && #[trigger] registration(
                    old(self)@,
                    final(self)@,
                    d,
                    command,
                    r,
                ),
    {
        let descriptor = CommandDescriptor::of(&command);
        let ghost d = descriptor@;
        let r = self.register(descriptor, command);
        proof {
            assert(reports(&command, d));
            assert(registration(old(self)@, final(self)@, d, command, r));
        }
        r
    }

    /// The number of registered commands.
    pub fn len(&self) -> (n: usize)
        requires
            self.wf(),
        ensures
            n == self@.commands.len(),
            n == self@.descriptors.len(),
    {
        self.commands.len()
    }

    /// The command with the given number.
    pub fn command(&self, index: usize) -> (c: &C)
        requires
            index < self@.commands.len(),
        ensures
            *c == self@.commands[index as int],
    {
        &self.commands[index]
    }

    /// The descriptor of the command with the given number.
    pub fn descriptor(&self, index: usize) -> (d: &CommandDescriptor)
        requires
            index < self@.descriptors.len(),
        ensures
            d@ == self@.descriptors[index as int],
    {
        &self.descriptors[index]
    }

    /// The descriptors of all registered commands, in registration order.
    pub fn list(&self) -> (ds: &Vec<CommandDescriptor>)
        ensures
            descriptors_view(ds@) == self@.descriptors,
    {
        &self.descriptors
    }

    /// Get a list of all registered command names, in registration order.
    pub fn command_names(&self) -> (names: Vec<String>)
        ensures
            names@.len() == self@.descriptors.len(),
            forall|i: int|
                0 <= i < names@.len() ==> (#[trigger] names@[i])@ == self@.descriptors[i].name,
    {
        let mut names: Vec<String> = Vec::new();
        let mut i: usize = 0;
        while i < self.descriptors.len()
            invariant
                i <= self.descriptors.len(),
                names@.len() == i,
                forall|k: int|
                    0 <= k < i ==> (#[trigger] names@[k])@ == self@.descriptors[k].name,
            decreases self.descriptors.len() - i,
        {
            names.push(self.descriptors[i].name.clone());
            i += 1;
        }
        names
    }

    /// Resolves a token to the number of the command that answers to it. The
    /// token is compared in lowercase, so its capitalisation does not matter.
    /// Fails with `NotFound` exactly when no command answers. The registry is
    /// only read.
    pub fn resolve(&self, token: &str) -> (r: CommandResult<usize>)
        requires
            self.wf(),
        ensures
            match r {
                Ok(i) => resolve(self@.descriptors, lowercase_of(token@)) == Some(i as int) && i
                    < self@.commands.len(),
                Err(e) => resolve(self@.descriptors, lowercase_of(token@)) is None && e@
                    == CommandErrorView::NotFound,
            },
    {
        let key = to_lowercase(token);
        match self.lookup(key.as_str()) {
            Some(i) => Ok(i),
            None => Err(CommandError::NotFound),
        }
    }

    /// Get a command by name or alias, whatever the capitalisation.
    pub fn get_command(&self, name: &str) -> (r: Option<&C>)
        requires
            self.wf(),
        ensures
            match resolve(self@.descriptors, lowercase_of(name@)) {
                Some(i) => 0 <= i < self@.commands.len() && r == Some(&self@.commands[i]),
                None => r is None,
            },
    {
        match self.resolve(name) {
            Ok(i) => Some(&self.commands[i]),
            Err(_) => None,
        }
    }

    /// Decides what an inbound message leads to: see [`route`]. At most one
    /// command is invoked. An invocation carries a context made for it alone,
    /// with the message, the arguments and the configuration.
    pub fn handle_message<'a>(&self, msg: &'a InboundMessage, config: &'a BotConfig) -> (r:
        Routing<'a>)
        requires
            self.wf(),
        ensures
            r@ == route(self@.descriptors, self@.prefix, config.owners@, *msg),
            r.invocation() matches Some(invocation) ==> {
                &&& invocation.command < self@.commands.len()
                &&& invocation.name@ == self@.descriptors[invocation.command as int].name
                &&& invocation.context.msg == msg
                &&& invocation.context.config == config
            },
    {
        if msg.author_is_bot {
            return Routing::Discard(Discard::BotAuthor);
        }
        let cs = to_chars(msg.content.as_str());
        let ps = to_chars(self.prefix.as_str());
        let spans = match command_spans(&cs, &ps) {
            Some(spans) => spans,
            None => {
                return Routing::Discard(Discard::NoPrefix);
            },
        };
        if spans.len() == 0 {
            return Routing::Discard(Discard::EmptyCommand);
        }
        let ghost words = spans_text(cs@, spans@);
        let word = string_of(&cs, spans[0].0, spans[0].1);
        let token = to_lowercase(word.as_str());
        let index = match self.lookup(token.as_str()) {
            Some(index) => index,
            None => {
                return Routing::Discard(Discard::NotFound);
            },
        };
        let mut args: Vec<String> = Vec::new();
        let mut i: usize = 1;
        while i < spans.len()
            invariant
                1 <= i <= spans.len(),
                words == spans_text(cs@, spans@),
                forall|k: int|
                    0 <= k < spans@.len() ==> (#[trigger] spans@[k]).0 < spans@[k].1 <= cs.len(),
                args@.len() == i - 1,
                forall|k: int| 0 <= k < args@.len() ==> (#[trigger] args@[k])@ == words[k + 1],
            decreases spans.len() - i,
        {
            args.push(string_of(&cs, spans[i].0, spans[i].1));
            i += 1;
        }
        assert(strings_view(args@) =~= words.skip(1));
        let descriptor = &self.descriptors[index];
        let verdict = validate_command(
            msg,
            descriptor.required_permissions,
            descriptor.owner_only,
            config.owners.as_slice(),
        );
        let context = CommandContext { msg, args, config };
        match verdict {
            Gate::Pass => Routing::Execute(
                Invocation { command: index, name: descriptor.name.clone(), context },
            ),
            Gate::Fetch { guild_id, user_id } => Routing::Fetch {
                invocation: Invocation { command: index, name: descriptor.name.clone(), context },
                guild_id,
                user_id,
            },
            Gate::Refuse(error) => Routing::Reject { command: index, error },
        }
    }

    /// Decides what becomes of an invocation that waited for the author's
    /// permissions: see [`resumed`]. `fetched` is the platform's answer, as
    /// [`validate_member`] takes it.
    pub fn resume<'a>(
        &self,
        invocation: Invocation<'a>,
        fetched: Result<Option<Permissions>, String>,
    ) -> (r: Routing<'a>)
        requires
            self.wf(),
            invocation.command < self@.descriptors.len(),
        ensures
            r@ == resumed(
                self@.descriptors,
                invocation.command as int,
                strings_view(invocation.context.args@),
                fetched_view(fetched),
            ),
            r matches Routing::Execute(same) ==> same == invocation,
    {
        let required = self.descriptors[invocation.command].required_permissions;
        match validate_member(required, fetched) {
            Ok(()) => Routing::Execute(invocation),
            Err(error) => Routing::Reject { command: invocation.command, error },
        }
    }
}

/// A message that does not start with the prefix leads to no invocation, and
/// neither does a message of an automated account: whatever is registered, the
/// router discards them.
pub proof fn lemma_no_prefix_no_invocation(
    ds: Seq<DescriptorView>,
    prefix: Seq<char>,
    owners: Seq<u64>,
    msg: InboundMessage,
)
    requires
        !prefix.is_prefix_of(msg.content@) || msg.author_is_bot,
    ensures
        route(ds, prefix, owners, msg) is Discard,
{
}

/// A message whose first word no command answers to is discarded as not found,
/// and the answer is the same every time it is asked: it depends on nothing
/// but the registered commands, the prefix and the message.
pub proof fn lemma_unresolved_is_discarded(
    ds: Seq<DescriptorView>,
    prefix: Seq<char>,
    owners: Seq<u64>,
    msg: InboundMessage,
)
    requires
        !msg.author_is_bot,
        parsed_command(msg.content@, prefix) matches Some((word, _)) && resolve(
            ds,
            lowercase_of(word),
        ) is None,
    ensures
        route(ds, prefix, owners, msg) == RoutingView::Discard(Discard::NotFound),
{
}

/// An owner-only command runs for owners alone: routed for anyone else, it is
/// rejected for missing permissions, and never executed nor kept waiting for
/// permissions.
pub proof fn lemma_owner_only_rejects_others(
    ds: Seq<DescriptorView>,
    prefix: Seq<char>,
    owners: Seq<u64>,
    msg: InboundMessage,
    i: int,
)
    requires
        !msg.author_is_bot,
        parsed_command(msg.content@, prefix) matches Some((word, _)) && resolve(
            ds,
            lowercase_of(word),
        ) == Some(i),
        ds[i].owner_only,
        !owners.contains(msg.author_id),
    ensures
        route(ds, prefix, owners, msg) == (RoutingView::Reject {
            command: i,
            error: CommandErrorView::MissingPermissions(Permissions { bits: 0 }),
        }),
{
}

/// The arguments of an invocation are words: none is empty and none holds
/// white space, however much white space the message had between them.
pub proof fn lemma_arguments_are_words(content: Seq<char>, prefix: Seq<char>)
    ensures
        parsed_command(content, prefix) matches Some((word, args)) ==> is_word(word) && forall|
            k: int,
        | 0 <= k < args.len() ==> is_word(#[trigger] args[k]),
{
    if parsed_command(content, prefix) is Some {
        let rest = content.skip(prefix.len() as int);
        lemma_words_are_solid(rest);
        let words = split_whitespace(rest);
        let args = words.skip(1);
        assert(is_word(words[0]));
        assert forall|k: int| 0 <= k < args.len() implies is_word(#[trigger] args[k]) by {
            assert(args[k] == words[k + 1]);
        }
    }
}

} // verus!
