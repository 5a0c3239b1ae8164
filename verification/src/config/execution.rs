//! Options of a cleanup run.

use vstd::prelude::*;

verus! {
/// How a cleanup run proceeds.
#[derive(Clone, Copy, Debug, PartialEq, Eq, Structural)]
pub struct ExecutionOptions {
    /// Report what would be freed without removing anything.
    pub dry_run: bool,
    /// Let the user pick the projects to clean.
    pub interactive: bool,
    /// Copy compiled executables out of the artifacts before removing them.
    pub keep_executables: bool,
    /// Move artifacts to the recoverable trash instead of deleting them.
    pub use_trash: bool,
}

} // verus!
