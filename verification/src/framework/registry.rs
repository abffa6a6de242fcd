//! The command registry as a mathematical model: what is known of a command,
//! which tokens it answers to, how a token resolves to a command, and when a
//! registration collides with what is registered already.

use vstd::prelude::*;
use crate::commands::message::texts;
use crate::framework::command_handler::Command;
use crate::models::permissions::Permissions;
use crate::utils::text::{lowercase_of, to_lowercase};

verus! {

/// What the registry knows of a command.
#[derive(Debug)]
pub struct CommandDescriptor {
    /// The name the command is invoked by.
    pub name: String,
    /// A description of the command, possibly empty.
    pub description: String,
    /// Usage information, possibly empty.
    pub usage: String,
    /// Other names the command answers to.
    pub aliases: Vec<String>,
    /// The permissions a guild member needs to run the command.
    pub required_permissions: Permissions,
    /// Whether only bot owners may run the command.
    pub owner_only: bool,
}

/// A [`CommandDescriptor`] with its texts as character sequences.
pub struct DescriptorView {
    pub name: Seq<char>,
    pub description: Seq<char>,
    pub usage: Seq<char>,
    pub aliases: Seq<Seq<char>>,
    pub required_permissions: Permissions,
    pub owner_only: bool,
}

/// The character sequences of a list of strings.
pub open spec fn strings_view(strings: Seq<String>) -> Seq<Seq<char>> {
    Seq::new(strings.len(), |i: int| strings[i]@)
}

/// The views of a list of descriptors.
pub open spec fn descriptors_view(descriptors: Seq<CommandDescriptor>) -> Seq<DescriptorView> {
    Seq::new(descriptors.len(), |i: int| descriptors[i]@)
}

impl View for CommandDescriptor {
    type V = DescriptorView;

    open spec fn view(&self) -> DescriptorView {
        DescriptorView {
            name: self.name@,
            description: self.description@,
            usage: self.usage@,
            aliases: strings_view(self.aliases@),
            required_permissions: self.required_permissions,
            owner_only: self.owner_only,
        }
    }
}

/// Whether `d` is what `command` reports of itself: every text and value of
/// `d` is one that the method of that name may return for this command. For a
/// command whose methods ensure their results, this fixes `d`.
pub open spec fn reports<T: Command>(command: &T, d: DescriptorView) -> bool {
    &&& exists|name: &str| T::name.ensures((command,), name) && name@ == d.name
    &&& exists|description: &str|
        T::description.ensures((command,), description) && description@ == d.description
    &&& exists|usage: &str| T::usage.ensures((command,), usage) && usage@ == d.usage
    &&& exists|aliases: Vec<&str>|
        T::aliases.ensures((command,), aliases) && texts(aliases@) == d.aliases
    &&& T::required_permissions.ensures((command,), d.required_permissions)
    &&& T::owner_only.ensures((command,), d.owner_only)
}

impl CommandDescriptor {
    /// Reads the metadata of `command`: the descriptor holds what the command
    /// reports of itself, text by text and alias by alias.
    pub fn of<T: Command>(command: &T) -> (d: CommandDescriptor)
        ensures
            reports(command, d@),
    {
        let given = command.aliases();
        let mut aliases: Vec<String> = Vec::new();
        let mut i: usize = 0;
        while i < given.len()
            invariant
                i <= given.len(),
                aliases@.len() == i,
                forall|k: int| 0 <= k < i ==> (#[trigger] aliases@[k])@ == given@[k]@,
            decreases given.len() - i,
        {
            aliases.push(given[i].to_string());
            i += 1;
        }
        let name = command.name();
        let description = command.description();
        let usage = command.usage();
        let d = CommandDescriptor {
            name: name.to_string(),
            description: description.to_string(),
            usage: usage.to_string(),
            aliases,
            required_permissions: command.required_permissions(),
            owner_only: command.owner_only(),
        };
        proof {
            assert(texts(given@) =~= d@.aliases);
            assert(T::name.ensures((command,), name) && name@ == d@.name);
            assert(T::description.ensures((command,), description) && description@
                == d@.description);
            assert(T::usage.ensures((command,), usage) && usage@ == d@.usage);
            assert(T::aliases.ensures((command,), given) && texts(given@) == d@.aliases);
        }
        d
    }

    /// The descriptor under which the command is stored: name and aliases in
    /// lowercase, the rest as given.
    pub fn normalize(self) -> (d: CommandDescriptor)
        ensures
            d@ == self@.normalized(),
    {
        let CommandDescriptor { name, description, usage, aliases, required_permissions, owner_only } =
            self;
        let mut lowered: Vec<String> = Vec::new();
        let mut i: usize = 0;
        while i < aliases.len()
            invariant
                i <= aliases.len(),
                lowered@.len() == i,
                forall|k: int| 0 <= k < i ==> (#[trigger] lowered@[k])@ == lowercase_of(aliases@[k]@),
            decreases aliases.len() - i,
        {
            lowered.push(to_lowercase(aliases[i].as_str()));
            i += 1;
        }
        let d = CommandDescriptor {
            name: to_lowercase(name.as_str()),
            description,
            usage,
            aliases: lowered,
            required_permissions,
            owner_only,
        };
        assert(d@.aliases =~= self@.normalized().aliases);
        d
    }
}

/// Whether `s` occurs among the first `upto` items of `v`.
pub(crate) fn occurs_before(v: &Vec<String>, upto: usize, s: &String) -> (b: bool)
    requires
        upto <= v.len(),
    ensures
        b == exists|k: int| 0 <= k < upto && (#[trigger] v@[k])@ == s@,
{
    let mut k: usize = 0;
    while k < upto
        invariant
            k <= upto <= v.len(),
            forall|m: int| 0 <= m < k ==> (#[trigger] v@[m])@ != s@,
        decreases upto - k,
    {
        if v[k] == *s {
            return true;
        }
        k += 1;
    }
    false
}

impl DescriptorView {
    /// The tokens the command answers to: its name, then its aliases.
    pub open spec fn keys(self) -> Seq<Seq<char>> {
        seq![self.name] + self.aliases
    }

    /// Whether the command answers to `token`.
    pub open spec fn answers(self, token: Seq<char>) -> bool {
        self.keys().contains(token)
    }

    /// The descriptor under which the command is stored: name and aliases in
    /// lowercase, the rest as given.
    pub open spec fn normalized(self) -> DescriptorView {
        DescriptorView {
            name: lowercase_of(self.name),
            description: self.description,
            usage: self.usage,
            aliases: Seq::new(self.aliases.len(), |i: int| lowercase_of(self.aliases[i])),
            required_permissions: self.required_permissions,
            owner_only: self.owner_only,
        }
    }
}

/// Whether `(i, a)` is the position of a key in the registry `ds`: key number
/// `a` of command number `i`.
pub open spec fn is_key_position(ds: Seq<DescriptorView>, i: int, a: int) -> bool {
    0 <= i < ds.len() && 0 <= a < ds[i].keys().len()
}

/// The key at position `(i, a)` of the registry `ds`.
pub open spec fn key_at(ds: Seq<DescriptorView>, i: int, a: int) -> Seq<char> {
    ds[i].keys()[a]
}

/// No token is a key twice: not of two commands, and not twice of one.
pub open spec fn keys_distinct(ds: Seq<DescriptorView>) -> bool {
    forall|i: int, a: int, j: int, b: int|
        #![trigger key_at(ds, i, a), key_at(ds, j, b)]
        is_key_position(ds, i, a) && is_key_position(ds, j, b) && key_at(ds, i, a) == key_at(
            ds,
            j,
            b,
        ) ==> i == j && a == b
}

/// Whether command number `i` of `ds` answers to `token`.
pub open spec fn resolves_to(ds: Seq<DescriptorView>, token: Seq<char>, i: int) -> bool {
    0 <= i < ds.len() && ds[i].answers(token)
}

/// Whether some command of `ds` answers to `token`.
pub open spec fn is_taken(ds: Seq<DescriptorView>, token: Seq<char>) -> bool {
    exists|i: int| resolves_to(ds, token, i)
}

/// The number of the command that answers to `token`, if there is one.
pub open spec fn resolve(ds: Seq<DescriptorView>, token: Seq<char>) -> Option<int> {
    if is_taken(ds, token) {
        Some(choose|i: int| resolves_to(ds, token, i))
    } else {
        None
    }
}

/// In a registry with distinct keys, the command that answers to a token is
/// the only one that does.
pub proof fn lemma_resolve_unique(ds: Seq<DescriptorView>, token: Seq<char>, i: int)
    requires
        keys_distinct(ds),
        resolves_to(ds, token, i),
    ensures
        resolve(ds, token) == Some(i),
{
    let j = choose|j: int| resolves_to(ds, token, j);
    let a = choose|a: int| 0 <= a < ds[i].keys().len() && ds[i].keys()[a] == token;
    let b = choose|b: int| 0 <= b < ds[j].keys().len() && ds[j].keys()[b] == token;
    assert(key_at(ds, i, a) == key_at(ds, j, b));
}

/// Whether `keys[j]` is already in use: by a command of `ds`, or earlier in
/// `keys`.
pub open spec fn collides_at(ds: Seq<DescriptorView>, keys: Seq<Seq<char>>, j: int) -> bool {
    is_taken(ds, keys[j]) || keys.take(j).contains(keys[j])
}

/// Whether `j` is the position of the first of `keys` that is already in use.
pub open spec fn is_first_collision(ds: Seq<DescriptorView>, keys: Seq<Seq<char>>, j: int) -> bool {
    &&& 0 <= j < keys.len()
    &&& collides_at(ds, keys, j)
    &&& forall|k: int| 0 <= k < j ==> !collides_at(ds, keys, k)
}

/// Whether none of `keys` is already in use.
pub open spec fn all_fresh(ds: Seq<DescriptorView>, keys: Seq<Seq<char>>) -> bool {
    forall|k: int| 0 <= k < keys.len() ==> !collides_at(ds, keys, k)
}

/// A registration that was refused because a name or alias is already in use.
#[derive(Debug)]
pub struct RegistrationError {
    /// The first name or alias of the refused command that was in use.
    pub key: String,
}

/// The position of the first of `keys` that is already in use, if any is.
pub open spec fn first_collision(ds: Seq<DescriptorView>, keys: Seq<Seq<char>>) -> Option<int> {
    if exists|j: int| is_first_collision(ds, keys, j) {
        Some(choose|j: int| is_first_collision(ds, keys, j))
    } else {
        None
    }
}

/// There is at most one first collision, and none among fresh keys.
pub proof fn lemma_first_collision(ds: Seq<DescriptorView>, keys: Seq<Seq<char>>)
    ensures
        all_fresh(ds, keys) ==> first_collision(ds, keys) is None,
        forall|j: int| is_first_collision(ds, keys, j) ==> first_collision(ds, keys) == Some(j),
{
    assert forall|j: int| is_first_collision(ds, keys, j) implies first_collision(ds, keys)
        == Some(j) by {
        let k = choose|k: int| is_first_collision(ds, keys, k);
        if k < j {
            assert(!collides_at(ds, keys, k));
        } else if j < k {
            assert(!collides_at(ds, keys, j));
        }
    }
}

/// Where some key is in use, there is a first one that is: keys are all fresh
/// exactly when there is no first collision.
pub proof fn lemma_collision_has_first(ds: Seq<DescriptorView>, keys: Seq<Seq<char>>, j: int)
    requires
        0 <= j < keys.len(),
        collides_at(ds, keys, j),
    ensures
        first_collision(ds, keys) is Some,
        !all_fresh(ds, keys),
    decreases j,
{
    if exists|k: int| 0 <= k < j && collides_at(ds, keys, k) {
        let k = choose|k: int| 0 <= k < j && collides_at(ds, keys, k);
        lemma_collision_has_first(ds, keys, k);
    } else {
        assert(is_first_collision(ds, keys, j));
    }
}

/// A token resolves to the command that answers to its lowercase form,
/// however the token is capitalised: two tokens with the same lowercase form
/// resolve alike, and a token whose lowercase form is the name or an alias of
/// command number `i` resolves to `i`.
pub proof fn lemma_resolution_ignores_case(
    ds: Seq<DescriptorView>,
    token: Seq<char>,
    other: Seq<char>,
    i: int,
)
    requires
        keys_distinct(ds),
        0 <= i < ds.len(),
        ds[i].name == lowercase_of(token) || ds[i].aliases.contains(lowercase_of(token)),
        lowercase_of(other) == lowercase_of(token),
    ensures
        resolve(ds, lowercase_of(token)) == Some(i),
        resolve(ds, lowercase_of(other)) == Some(i),
{
    let key = lowercase_of(token);
    if ds[i].name == key {
        assert(ds[i].keys()[0] == key);
    } else {
        let b = choose|b: int| 0 <= b < ds[i].aliases.len() && ds[i].aliases[b] == key;
        assert(ds[i].keys()[b + 1] == key);
    }
    lemma_resolve_unique(ds, key, i);
}

/// Once a command is registered, its name and each of its aliases resolve to
/// it, in whatever capitalisation they were given at registration.
pub proof fn lemma_registered_resolves(ds: Seq<DescriptorView>, d: DescriptorView, a: int)
    requires
        keys_distinct(ds.push(d.normalized())),
        0 <= a < d.keys().len(),
    ensures
        resolve(ds.push(d.normalized()), lowercase_of(d.keys()[a])) == Some(ds.len() as int),
{
    let nd = d.normalized();
    let after = ds.push(nd);
    let n = ds.len() as int;
    assert(after[n] == nd);
    if a == 0 {
        assert(nd.keys()[0] == lowercase_of(d.keys()[0]));
    } else {
        assert(d.keys()[a] == d.aliases[a - 1]);
        assert(nd.keys()[a] == nd.aliases[a - 1]);
    }
    assert(nd.keys()[a] == lowercase_of(d.keys()[a]));
    lemma_resolve_unique(after, lowercase_of(d.keys()[a]), n);
}

/// A registration changes nothing for the tokens that the new command does
/// not answer to: they resolve as before, to the same command or to none.
pub proof fn lemma_registration_keeps_others(
    ds: Seq<DescriptorView>,
    d: DescriptorView,
    token: Seq<char>,
)
    requires
        keys_distinct(ds.push(d)),
        !d.answers(token),
    ensures
        resolve(ds.push(d), token) == resolve(ds, token),
{
    let after = ds.push(d);
    assert forall|i: int| 0 <= i < ds.len() implies #[trigger] after[i] == ds[i] by {}
    if is_taken(ds, token) {
        let i = choose|i: int| resolves_to(ds, token, i);
        assert(resolves_to(after, token, i));
        lemma_resolve_unique(after, token, i);
        assert forall|i: int, a: int, j: int, b: int|
            #![trigger key_at(ds, i, a), key_at(ds, j, b)]
            is_key_position(ds, i, a) && is_key_position(ds, j, b) && key_at(ds, i, a) == key_at(
                ds,
                j,
                b,
            ) implies i == j && a == b by {
            assert(key_at(after, i, a) == key_at(after, j, b));
            assert(is_key_position(after, i, a) && is_key_position(after, j, b));
        }
        lemma_resolve_unique(ds, token, i);
    } else {
        if is_taken(after, token) {
            let i = choose|i: int| resolves_to(after, token, i);
            if i < ds.len() {
                assert(resolves_to(ds, token, i));
            }
        }
    }
}

} // verus!
