//! The `new` command: what it creates, and the author name it fills in.
use vstd::prelude::*;
use crate::text::{chars_of, replace_char, replace_char_vec, string_of};

verus! {

/// The `new` command: a project, an issue or an article.
#[derive(Debug, Clone, Copy)]
pub struct NewCmd;

/// What the `new` command creates.
#[derive(Debug, Clone, Copy, PartialEq, Eq, Structural)]
pub enum NewAction {
    Project,
    Issue,
    Article,
}

impl NewCmd {
    /// What the command creates for its flags: an issue when `--issue` is
    /// given, else an article when `--article` is, else a project.
    pub fn action(&self, issue: bool, article: bool) -> (r: NewAction)
        ensures
            r == if issue {
                NewAction::Issue
            } else if article {
                NewAction::Article
            } else {
                NewAction::Project
            },
    {
        if issue {
            NewAction::Issue
        } else if article {
            NewAction::Article
        } else {
            NewAction::Project
        }
    }
}

/// The author name of a new project from the output of
/// `git config user.name` (`None` when the command failed): spaces become
/// underscores, no output gives an empty name.
pub fn git_user_name(output: Option<&str>) -> (r: String)
    ensures
        r@ == match output {
            Some(o) => replace_char(o@, ' ', '_'),
            None => Seq::empty(),
        },
{
    match output {
        Some(o) => {
            let v = chars_of(o);
            let d = replace_char_vec(&v, ' ', '_');
            string_of(d.as_slice())
        },
        None => String::new(),
    }
}

} // verus!
