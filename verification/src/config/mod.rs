//! Options that steer scanning, filtering, sorting and cleaning.

pub mod execution;
pub mod file;
pub mod filter;
pub mod scan;

pub use execution::ExecutionOptions;
pub use file::FileConfig;
pub use filter::{FilterOptions, ProjectFilter, SortCriteria, SortOptions};
pub use scan::ScanOptions;
