//! Handler for the Ready event.

use vstd::prelude::*;
use crate::framework::event_handler::EventHandler;
use crate::models::config::BotConfig;
use crate::utils::text::{decimal, push_decimal};

verus! {

/// Handles the Ready event, which is sent when the bot connects to the
/// platform.
#[derive(Clone, Copy, Debug)]
pub struct ReadyHandler;

impl EventHandler for ReadyHandler {
    fn event_type(&self) -> (r: &'static str)
        ensures
            r@ == "ready"@,
    {
        "ready"
    }
}

/// The lines that the ready handler logs: who the bot is logged in as, how
/// many servers it is connected to, and the command prefix, or that no
/// configuration is loaded.
pub open spec fn ready_lines(bot_name: Seq<char>, guild_count: nat, prefix: Option<Seq<char>>) -> Seq<
    Seq<char>,
> {
    seq![
        "Bot is ready! Logged in as "@ + bot_name,
        bot_name + " is connected to "@ + decimal(guild_count) + " servers"@,
        match prefix {
            Some(prefix) => "Command prefix: "@ + prefix,
            None => "No configuration loaded"@,
        },
    ]
}

impl ReadyHandler {
    /// Handles the ready event: the lines to log, see [`ready_lines`].
    pub fn on_ready(&self, bot_name: &str, guild_count: usize, config: Option<&BotConfig>) -> (lines:
        Vec<String>)
        ensures
            lines@.len() == 3,
            forall|i: int|
                0 <= i < 3 ==> (#[trigger] lines@[i])@ == ready_lines(
                    bot_name@,
                    guild_count as nat,
                    match config {
                        Some(config) => Some(config.prefix@),
                        None => None,
                    },
                )[i],
    {
        let logged_in = "Bot is ready! Logged in as ".to_string().concat(bot_name);
        let mut connected = bot_name.to_string().concat(" is connected to ");
        push_decimal(&mut connected, guild_count as u128);
        let connected = connected.concat(" servers");
        let configured = match config {
            Some(config) => "Command prefix: ".to_string().concat(config.prefix.as_str()),
            None => "No configuration loaded".to_string(),
        };
        let mut lines: Vec<String> = Vec::new();
        lines.push(logged_in);
        lines.push(connected);
        lines.push(configured);
        lines
    }
}

} // verus!
