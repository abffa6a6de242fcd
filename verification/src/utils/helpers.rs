//! Helper functions for common operations.

use vstd::prelude::*;
use std::time::Duration;
use crate::models::config::BotConfig;
use crate::models::message::InboundMessage;
use crate::utils::constants::{DEFAULT_COLOR, ERROR_COLOR, SUCCESS_COLOR, WARNING_COLOR};
use crate::utils::text::{decimal, push_char, push_decimal, string_of, to_chars, truncated};

verus! {

/// Check if a user is a bot owner. Without a configuration nobody is.
pub fn is_owner(config: Option<&BotConfig>, user_id: u64) -> (b: bool)
    ensures
        b == match config {
            Some(config) => config.owners@.contains(user_id),
            None => false,
        },
{
    match config {
        Some(config) => config.is_owner(user_id),
        None => false,
    }
}

/// A number of seconds as days, hours, minutes and seconds (e.g.,
/// "2h 15m 30s"). The text starts with the largest unit that is not zero and
/// names every smaller unit, zero or not; seconds are always named.
pub open spec fn duration_text(seconds: nat) -> Seq<char> {
    let d = seconds / 86400;
    let h = (seconds % 86400) / 3600;
    let m = (seconds % 3600) / 60;
    let s = seconds % 60;
    if d == 0 && h == 0 && m == 0 {
        decimal(s) + seq!['s']
    } else if d == 0 && h == 0 {
        decimal(m) + seq!['m', ' '] + decimal(s) + seq!['s']
    } else if d == 0 {
        decimal(h) + seq!['h', ' '] + decimal(m) + seq!['m', ' '] + decimal(s) + seq!['s']
    } else {
        decimal(d) + seq!['d', ' '] + decimal(h) + seq!['h', ' '] + decimal(m) + seq!['m', ' ']
            + decimal(s) + seq!['s']
    }
}

/// Format a number of seconds into a human-readable string: see
/// [`duration_text`].
pub fn format_seconds(seconds: u64) -> (text: String)
    ensures
        text@ == duration_text(seconds as nat),
{
    let days = seconds / 86400;
    let hours = (seconds % 86400) / 3600;
    let minutes = (seconds % 3600) / 60;
    let secs = seconds % 60;
    let mut text = String::new();
    if days > 0 {
        push_decimal(&mut text, days as u128);
        push_char(&mut text, 'd');
        push_char(&mut text, ' ');
    }
    if days > 0 || hours > 0 {
        push_decimal(&mut text, hours as u128);
        push_char(&mut text, 'h');
        push_char(&mut text, ' ');
    }
    if days > 0 || hours > 0 || minutes > 0 {
        push_decimal(&mut text, minutes as u128);
        push_char(&mut text, 'm');
        push_char(&mut text, ' ');
    }
    push_decimal(&mut text, secs as u128);
    push_char(&mut text, 's');
    assert(text@ =~= duration_text(seconds as nat));
    text
}

/// The number of whole seconds in a duration, as `Duration::as_secs` returns
/// it.
pub uninterp spec fn whole_seconds(duration: Duration) -> u64;

/// Calls `Duration::as_secs`. Trusted: the result is the number of whole
/// seconds of the duration.
#[verifier::external_body]
fn as_secs(duration: &Duration) -> (seconds: u64)
    ensures
        seconds == whole_seconds(*duration),
{
    duration.as_secs()
}

/// Format a duration into a human-readable string (e.g., "2h 15m 30s"): the
/// [`duration_text`] of its whole seconds.
pub fn format_duration(duration: Duration) -> (text: String)
    ensures
        text@ == duration_text(whole_seconds(duration) as nat),
{
    format_seconds(as_secs(&duration))
}

/// Truncate a string to a maximum length, appending an ellipsis if necessary.
/// Lengths count characters.
pub fn truncate(s: &str, max_chars: usize) -> (r: String)
    ensures
        r@ == truncated(s@, max_chars as nat),
{
    let cs = to_chars(s);
    if cs.len() <= max_chars {
        let r = string_of(&cs, 0, cs.len());
        assert(cs@.subrange(0, cs@.len() as int) =~= cs@);
        r
    } else {
        let mut r = string_of(&cs, 0, max_chars);
        push_char(&mut r, '.');
        push_char(&mut r, '.');
        push_char(&mut r, '.');
        assert(r@ =~= truncated(s@, max_chars as nat));
        r
    }
}

/// A token with its middle hidden, for the log: the first six and the last
/// four characters around three dots. A token of ten characters or fewer is
/// hidden whole, as three asterisks.
pub open spec fn masked(token: Seq<char>) -> Seq<char> {
    if token.len() > 10 {
        token.take(6) + seq!['.', '.', '.'] + token.skip(token.len() - 4)
    } else {
        seq!['*', '*', '*']
    }
}

/// Hides the middle of a token: see [`masked`].
pub fn mask_token(token: &str) -> (r: String)
    ensures
        r@ == masked(token@),
{
    let cs = to_chars(token);
    let mut r = String::new();
    if cs.len() > 10 {
        let mut i: usize = 0;
        while i < 6
            invariant
                i <= 6,
                cs.len() > 10,
                r@ == cs@.take(i as int),
            decreases 6 - i,
        {
            push_char(&mut r, cs[i]);
            assert(r@ =~= cs@.take(i + 1));
            i += 1;
        }
        push_char(&mut r, '.');
        push_char(&mut r, '.');
        push_char(&mut r, '.');
        let start: usize = cs.len() - 4;
        let ghost head = r@;
        let mut j: usize = start;
        while j < cs.len()
            invariant
                start <= j <= cs.len(),
                r@ == head + cs@.subrange(start as int, j as int),
            decreases cs.len() - j,
        {
            push_char(&mut r, cs[j]);
            assert(r@ =~= head + cs@.subrange(start as int, j + 1));
            j += 1;
        }
        assert(r@ =~= masked(token@));
    } else {
        push_char(&mut r, '*');
        push_char(&mut r, '*');
        push_char(&mut r, '*');
        assert(r@ =~= masked(token@));
    }
    r
}

/// What an embed shows, apart from the time it is sent at.
#[derive(Clone, Debug)]
pub struct Embed {
    /// The title line.
    pub title: String,
    /// The body text.
    pub description: String,
    /// The colour of the side bar, as 0xRRGGBB.
    pub color: u32,
    /// The footer text.
    pub footer: String,
}

/// An [`Embed`] with its texts as character sequences.
pub struct EmbedView {
    pub title: Seq<char>,
    pub description: Seq<char>,
    pub color: u32,
    pub footer: Seq<char>,
}

impl View for Embed {
    type V = EmbedView;

    open spec fn view(&self) -> EmbedView {
        EmbedView {
            title: self.title@,
            description: self.description@,
            color: self.color,
            footer: self.footer@,
        }
    }
}

/// The footer of an embed that answers `msg`: who asked for it.
pub open spec fn requested_by(msg: InboundMessage) -> Seq<char> {
    "Requested by "@ + msg.author_tag@
}

/// Builds the embed that answers `msg` with the given title, text and colour.
pub fn embed(msg: &InboundMessage, title: &str, description: &str, color: u32) -> (e: Embed)
    ensures
        e@ == (EmbedView {
            title: title@,
            description: description@,
            color,
            footer: requested_by(*msg),
        }),
{
    Embed {
        title: title.to_string(),
        description: description.to_string(),
        color,
        footer: "Requested by ".to_string().concat(msg.author_tag.as_str()),
    }
}

/// The info embed for a channel: the given title and text in the default
/// colour.
pub fn info_embed(msg: &InboundMessage, title: &str, description: &str) -> (e: Embed)
    ensures
        e@ == (EmbedView {
            title: title@,
            description: description@,
            color: 0x5865F2,
            footer: requested_by(*msg),
        }),
{
    embed(msg, title, description, DEFAULT_COLOR)
}

/// The success embed for a channel: titled "Success", in green.
pub fn success_embed(msg: &InboundMessage, description: &str) -> (e: Embed)
    ensures
        e@ == (EmbedView {
            title: "Success"@,
            description: description@,
            color: 0x57F287,
            footer: requested_by(*msg),
        }),
{
    embed(msg, "Success", description, SUCCESS_COLOR)
}

/// The error embed for a channel: titled "Error", in red.
pub fn error_embed(msg: &InboundMessage, description: &str) -> (e: Embed)
    ensures
        e@ == (EmbedView {
            title: "Error"@,
            description: description@,
            color: 0xED4245,
            footer: requested_by(*msg),
        }),
{
    embed(msg, "Error", description, ERROR_COLOR)
}

/// The warning embed for a channel: titled "Warning", in yellow.
pub fn warning_embed(msg: &InboundMessage, description: &str) -> (e: Embed)
    ensures
        e@ == (EmbedView {
            title: "Warning"@,
            description: description@,
            color: 0xFEE75C,
            footer: requested_by(*msg),
        }),
{
    embed(msg, "Warning", description, WARNING_COLOR)
}

} // verus!
