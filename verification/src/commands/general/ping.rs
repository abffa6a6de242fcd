//! Ping command to check the bot's latency.

use vstd::prelude::*;
use crate::commands::message::texts;
use crate::framework::command_handler::{Command, CommandDescriptor, DescriptorView};
use crate::framework::registry::reports;
use crate::framework::context::{EmbedContent, EmbedContentView};
use crate::models::permissions::Permissions;
use crate::utils::text::{decimal, push_char, push_decimal};

verus! {

/// A simple ping command that responds with the bot's latency.
#[derive(Clone, Copy, Debug)]
pub struct PingCommand;

impl Command for PingCommand {
    fn name(&self) -> (r: &str)
        ensures
            r@ == "ping"@,
    {
        "ping"
    }

    fn description(&self) -> (r: &str)
        ensures
            r@ == "Check the bot's latency"@,
    {
        "Check the bot's latency"
    }

    fn usage(&self) -> (r: &str)
        ensures
            r@.len() == 0,
    {
        proof {
            reveal_strlit("");
        }
        ""
    }

    fn aliases(&self) -> (r: Vec<&str>)
        ensures
            r@.len() == 0,
    {
        Vec::new()
    }

    fn required_permissions(&self) -> (r: Permissions)
        ensures
            r.bits == 0,
    {
        Permissions::empty()
    }

    fn owner_only(&self) -> (r: bool)
        ensures
            !r,
    {
        false
    }
}

/// What the ping command reports of itself.
pub open spec fn ping_descriptor() -> DescriptorView {
    DescriptorView {
        name: "ping"@,
        description: "Check the bot's latency"@,
        usage: Seq::empty(),
        aliases: Seq::empty(),
        required_permissions: Permissions { bits: 0 },
        owner_only: false,
    }
}

/// The ping command reports exactly one descriptor of itself: whatever is
/// read from it is [`ping_descriptor`].
pub proof fn lemma_ping_reports(d: DescriptorView)
    requires
        reports(&PingCommand, d),
    ensures
        d == ping_descriptor(),
{
    let aliases = choose|aliases: Vec<&str>|
        <PingCommand as Command>::aliases.ensures((&PingCommand,), aliases) && texts(aliases@)
            == d.aliases;
    assert(d.aliases =~= Seq::<Seq<char>>::empty());
    assert(d.usage =~= Seq::<char>::empty());
}

/// The text the answer reports the latency with.
pub open spec fn latency_text(latency_ms: nat) -> Seq<char> {
    "Latency: "@ + decimal(latency_ms) + seq!['m', 's']
}

impl PingCommand {
    /// The descriptor of the command, as the command reports it: its name
    /// and description, no usage, no alias, no required permission, open to
    /// everyone.
    pub fn descriptor(&self) -> (d: CommandDescriptor)
        ensures
            d@ == ping_descriptor(),
    {
        let d = CommandDescriptor {
            name: self.name().to_string(),
            description: self.description().to_string(),
            usage: self.usage().to_string(),
            aliases: Vec::new(),
            required_permissions: self.required_permissions(),
            owner_only: self.owner_only(),
        };
        assert(d@.aliases =~= Seq::<Seq<char>>::empty());
        assert(d@.usage =~= Seq::<char>::empty());
        d
    }

    /// The text of the message that is sent before the latency is known.
    pub fn pinging(&self) -> (text: &'static str)
        ensures
            text@ == "Pinging..."@,
    {
        "Pinging..."
    }

    /// The embed that replaces the first message once the latency, in
    /// milliseconds, is known.
    pub fn pong(&self, latency_ms: u128) -> (e: EmbedContent)
        ensures
            e@ == (EmbedContentView {
                title: "🏓 Pong!"@,
                description: latency_text(latency_ms as nat),
                color: Some(0x7289DAu32),
            }),
    {
        let mut description = "Latency: ".to_string();
        push_decimal(&mut description, latency_ms);
        push_char(&mut description, 'm');
        push_char(&mut description, 's');
        assert(description@ =~= latency_text(latency_ms as nat));
        EmbedContent { title: "🏓 Pong!".to_string(), description, color: Some(0x7289DA) }
    }
}

} // verus!
