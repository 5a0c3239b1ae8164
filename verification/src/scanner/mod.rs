//! Discovery of projects in a snapshot of a directory tree.

use vstd::prelude::*;
use crate::config::{ProjectFilter, ScanOptions};

pub mod detect;
pub mod json;
pub mod names;
pub mod reports;
pub mod rules;
pub mod sizes;
pub mod walk;

verus! {
/// Finds the projects of a directory tree.
pub struct Scanner {
    /// Configuration options for scanning behavior
    pub scan_options: ScanOptions,
    /// Filter to restrict scanning to specific project types
    pub project_filter: ProjectFilter,
    /// When `true`, the caller shows no progress.
    pub quiet: bool,
}

impl Scanner {
    /// Create a new scanner with the specified options.
    pub fn new(scan_options: ScanOptions, project_filter: ProjectFilter) -> (r: Self)
        ensures
            r.scan_options == scan_options,
            r.project_filter == project_filter,
            !r.quiet,
    {
        Self { scan_options, project_filter, quiet: false }
    }

    /// Enable or disable quiet mode.
    pub fn with_quiet(self, quiet: bool) -> (r: Self)
        ensures
            r.scan_options == self.scan_options,
            r.project_filter == self.project_filter,
            r.quiet == quiet,
    {
        Self { scan_options: self.scan_options, project_filter: self.project_filter, quiet }
    }
}

} // verus!
