//! The end matter below the article content.
use vstd::prelude::*;

verus! {

/// The end matter: comments on the article.
#[derive(Debug, Clone, PartialEq, Eq)]
pub struct EndMatter {
    pub comments: Vec<Comment>,
}

/// A comment.
#[derive(Debug, Clone, PartialEq, Eq)]
pub struct Comment {
    /// The author name (plain text).
    pub author: String,
    /// The profile of the author (markdown).
    pub bio: Option<String>,
    /// The comment content (markdown).
    pub content: String,
}

} // verus!
