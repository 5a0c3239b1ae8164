//! Size parsing, size rendering and directory measurement.

pub mod human;
pub mod size;

pub use crate::snapshot::calculate_dir_size;
pub use size::{parse_size, SizeError};
