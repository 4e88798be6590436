//! The markdown settings.
use vstd::prelude::*;
use crate::text::string_from;

verus! {

/// The markdown settings, declared in the `[markdown]` table.
#[derive(Debug, Clone, PartialEq, Eq)]
pub struct MarkdownConfig {
    pub highlight_code: bool,
    pub highlight_theme: String,
}

pub const DEFAULT_HIGHLIGHT_THEME: &'static str = "monokai";

impl MarkdownConfig {
    pub fn default_highlight_theme() -> (r: String)
        ensures
            r@ == DEFAULT_HIGHLIGHT_THEME@,
    {
        string_from(DEFAULT_HIGHLIGHT_THEME)
    }

    pub fn default_highlight_code() -> (r: bool)
        ensures
            r,
    {
        true
    }
}

impl Default for MarkdownConfig {
    fn default() -> (r: Self)
        ensures
            r.highlight_code,
            r.highlight_theme@ == DEFAULT_HIGHLIGHT_THEME@,
    {
        MarkdownConfig {
            highlight_code: Self::default_highlight_code(),
            highlight_theme: Self::default_highlight_theme(),
        }
    }
}

} // verus!
