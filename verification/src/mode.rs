//! The run mode of the generator.
use vstd::prelude::*;

verus! {

/// How the generator runs.
#[derive(Debug, Clone, Copy, PartialEq, Eq, Structural)]
pub enum Mode {
    Build,
    Serve,
    Unknown,
}

/// Calls `genkit::current_mode`, which reads the mode set by the command line
/// driver; nothing is claimed of the result, which depends on that global state.
#[verifier::external_body]
pub(crate) fn current_mode() -> (r: Mode) {
    match genkit::current_mode() {
        genkit::Mode::Build => Mode::Build,
        genkit::Mode::Serve => Mode::Serve,
        genkit::Mode::Unknown => Mode::Unknown,
    }
}

/// Whether something with the given `publish` flag is published in `mode`:
/// always in serve mode, else when the flag is set.
pub open spec fn published(publish: bool, mode: Mode) -> bool {
    publish || mode == Mode::Serve
}

} // verus!
