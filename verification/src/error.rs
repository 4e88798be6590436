//! The errors of reading a magazine.
use vstd::prelude::*;
use crate::text::string_from;

verus! {

/// Why a magazine cannot be read.
#[derive(Debug, Clone, PartialEq, Eq)]
pub enum ZineError {
    /// The root `zine.toml` has a `[site]` table but is invalid; the parser's
    /// message.
    InvalidRootTomlFile(String),
    /// The file has no `[site]` table: it is the `zine.toml` of an issue.
    NotRootTomlFile,
    /// An author id that is neither a name nor a list of names.
    ParseAuthorIdError(String),
}

impl ZineError {
    /// The error of a root `zine.toml` that failed to parse with `detail`:
    /// invalid when it has a `[site]` table, else not a root file.
    pub fn for_root_toml(has_site: bool, detail: String) -> (r: ZineError)
        ensures
            has_site ==> (r matches ZineError::InvalidRootTomlFile(d) && d == detail),
            !has_site ==> r is NotRootTomlFile,
    {
        if has_site {
            ZineError::InvalidRootTomlFile(detail)
        } else {
            ZineError::NotRootTomlFile
        }
    }

    /// The message of the error.
    pub fn message(&self) -> (r: String)
        ensures
            r@ == match self {
                ZineError::InvalidRootTomlFile(d) => "Invalid format of root `zine.toml`: "@ + d@,
                ZineError::NotRootTomlFile => "Not a root `zine.toml`, maybe it a `zine.toml` for issue?"@,
                ZineError::ParseAuthorIdError(s) => "Invalid Author Id String "@ + s@,
            },
    {
        match self {
            ZineError::InvalidRootTomlFile(d) => {
                let mut m = string_from("Invalid format of root `zine.toml`: ");
                m.append(d.as_str());
                m
            },
            ZineError::NotRootTomlFile => string_from("Not a root `zine.toml`, maybe it a `zine.toml` for issue?"),
            ZineError::ParseAuthorIdError(s) => {
                let mut m = string_from("Invalid Author Id String ");
                m.append(s.as_str());
                m
            },
        }
    }
}

} // verus!
