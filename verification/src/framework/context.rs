//! What the bot sends, as plain values, and small decisions around it.

use vstd::prelude::*;

verus! {

/// A simple embed: a title, a text and, optionally, a colour.
#[derive(Clone, Debug)]
pub struct EmbedContent {
    /// The title line.
    pub title: String,
    /// The body text.
    pub description: String,
    /// The colour of the side bar, as 0xRRGGBB, where one is set.
    pub color: Option<u32>,
}

/// An [`EmbedContent`] with its texts as character sequences.
pub struct EmbedContentView {
    pub title: Seq<char>,
    pub description: Seq<char>,
    pub color: Option<u32>,
}

impl View for EmbedContent {
    type V = EmbedContentView;

    open spec fn view(&self) -> EmbedContentView {
        EmbedContentView { title: self.title@, description: self.description@, color: self.color }
    }
}

/// The content of a simple embed message.
pub fn embed_content(title: &str, description: &str, color: Option<u32>) -> (e: EmbedContent)
    ensures
        e@ == (EmbedContentView { title: title@, description: description@, color }),
{
    EmbedContent { title: title.to_string(), description: description.to_string(), color }
}

/// Gets the name of the bot: the name the platform reported, or "Unknown Bot"
/// where asking for it failed.
pub fn bot_name(fetched: Option<String>) -> (name: String)
    ensures
        name@ == match fetched {
            Some(reported) => reported@,
            None => "Unknown Bot"@,
        },
{
    match fetched {
        Some(reported) => reported,
        None => "Unknown Bot".to_string(),
    }
}

} // verus!
