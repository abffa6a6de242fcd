//! A ping command for message-based invocation.

use vstd::prelude::*;
use crate::commands::command_trait::CommandInfo;
use crate::models::permissions::Permissions;
use crate::utils::text::{push_char, signed_decimal, signed_decimal_string};

verus! {

/// A simple ping command to test bot responsiveness.
#[derive(Clone, Copy, Debug)]
pub struct PingCommand;

impl Default for PingCommand {
    fn default() -> (command: Self) {
        PingCommand
    }
}

/// The text of the answer once the latency, in milliseconds, is known.
pub open spec fn reply_text(latency_ms: int) -> Seq<char> {
    "Pong! Latency: "@ + signed_decimal(latency_ms) + seq!['m', 's']
}

impl PingCommand {
    /// The text of the first answer.
    pub fn pong(&self) -> (text: &'static str)
        ensures
            text@ == "Pong!"@,
    {
        "Pong!"
    }

    /// The text the first answer is replaced with once the latency, in
    /// milliseconds, is known.
    pub fn reply(&self, latency_ms: i64) -> (text: String)
        ensures
            text@ == reply_text(latency_ms as int),
    {
        self.reply_between(0, latency_ms)
    }

    /// The text the first answer is replaced with, given the times, in
    /// milliseconds, at which the command was sent and at which the first
    /// answer was posted. The latency is their difference; it is negative
    /// where the clocks disagree.
    pub fn reply_between(&self, sent_ms: i64, answered_ms: i64) -> (text: String)
        ensures
            text@ == reply_text(answered_ms - sent_ms),
    {
        let latency: i128 = answered_ms as i128 - sent_ms as i128;
        let number = signed_decimal_string(latency);
        let mut text = "Pong! Latency: ".to_string().concat(number.as_str());
        push_char(&mut text, 'm');
        push_char(&mut text, 's');
        assert(text@ =~= reply_text(answered_ms - sent_ms));
        text
    }
}

impl CommandInfo for PingCommand {
    fn name(&self) -> (r: &'static str)
        ensures
            r@ == "ping"@,
    {
        "ping"
    }

    fn description(&self) -> (r: &'static str)
        ensures
            r@ == "Check the bot's response time"@,
    {
        "Check the bot's response time"
    }

    fn category(&self) -> (r: &'static str)
        ensures
            r@ == "Utility"@,
    {
        "Utility"
    }

    fn required_permissions(&self) -> (r: Permissions)
        ensures
            r.bits == 0,
    {
        Permissions::empty()
    }

    fn owner_only(&self) -> (r: bool)
        ensures
            !r,
    {
        false
    }
}

} // verus!
