//! The quote block, written as TOML in the block body.
use vstd::prelude::*;

verus! {

/// A quote: its author, avatar, bio and content.
#[derive(Debug, Clone, PartialEq, Eq)]
pub struct QuoteBlock {
    /// The author name (plain text).
    pub author: Option<String>,
    /// The avatar url.
    pub avatar: Option<String>,
    /// The profile of the author (markdown).
    pub bio: Option<String>,
    /// The quote content (markdown).
    pub content: String,
}

} // verus!
