//! Options of a scan.

use vstd::prelude::*;

verus! {
/// Configuration for directory scanning behavior.
#[derive(Clone, Debug)]
pub struct ScanOptions {
    /// Whether to report the errors met while scanning.
    pub verbose: bool,
    /// Number of worker threads (0 = all available cores).
    pub threads: usize,
    /// Names of path components below which nothing is scanned.
    pub skip: Vec<String>,
    /// How deep below the root directories are classified (`None` = unlimited).
    pub max_depth: Option<usize>,
}

} // verus!
