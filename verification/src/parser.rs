//! The reader of a magazine directory.
use vstd::prelude::*;
use crate::text::string_from;

verus! {

/// The reader of the magazine in the directory `path`.
#[derive(Debug)]
pub struct Parser {
    pub path: String,
}

impl Parser {
    /// The reader of the magazine in `path`.
    pub fn new(path: &str) -> (r: Self)
        ensures
            r.path@ == path@,
    {
        Parser { path: string_from(path) }
    }
}

} // verus!
