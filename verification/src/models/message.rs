//! What the router reads of a message that arrived from the chat platform.

use vstd::prelude::*;
use crate::models::permissions::Permissions;

verus! {

/// The facts of an inbound message that routing and permission checks depend
/// on.
#[derive(Clone, Debug)]
pub struct InboundMessage {
    /// The text of the message.
    pub content: String,
    /// The id of the channel the message was sent in.
    pub channel_id: u64,
    /// The id of the user who sent the message.
    pub author_id: u64,
    /// The author's display tag.
    pub author_tag: String,
    /// Whether the author is an automated account.
    pub author_is_bot: bool,
    /// The guild the message was sent in, if it was sent in one.
    pub guild_id: Option<u64>,
    /// The author's permissions in that guild, where the message carries them.
    pub member_permissions: Option<Permissions>,
}

} // verus!
