//! The options that every generation step runs under.
use vstd::prelude::*;

verus! {

/// Options of one invocation.
#[derive(Clone, Copy, Debug)]
pub struct Context {
    /// Report what would be written, and write nothing.
    pub dry_run: bool,
    /// Overwrite files that exist already.
    pub force: bool,
    /// The whole-project generation is running: selects the richer wiring
    /// of the entry point.
    pub is_new_all: bool,
}

} // verus!
