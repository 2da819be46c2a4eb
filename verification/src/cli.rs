//! How the program was called.

use vstd::prelude::*;

verus! {

/// What a run is for.
#[derive(Clone, Copy, Debug, PartialEq, Eq, Structural)]
pub enum Mode {
    /// Browse the catalog and open a project.
    Open,
    /// Record a project in the catalog.
    Mark,
}

/// The mode for a command line of `arg_count` words, the program's name
/// included: a path and a title make a mark request, anything else opens
/// the browser.
pub fn check_open_or_mark(arg_count: usize) -> (mode: Mode)
    ensures
        mode == if arg_count == 3 {
            Mode::Mark
        } else {
            Mode::Open
        },
{
    if arg_count == 3 {
        Mode::Mark
    } else {
        Mode::Open
    }
}

} // verus!
