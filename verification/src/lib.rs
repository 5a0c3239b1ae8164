//! Detection, measurement and cleanup planning for the build directories
//! of development projects.
//!
//! The library works on a snapshot of a directory tree and on plain values;
//! it reads no disk and removes nothing. Its caller lists the tree, asks the
//! [`scanner`] for the projects in it, lets [`filtering`] keep and order
//! them, and carries out the steps that the [`cleaner`] decides.
//!
//! - [`utils`]: parsing of size thresholds, rendering of byte counts
//! - [`snapshot`]: the directory tree as it was listed, and its measurement
//! - [`scanner`]: the prune rules, the detectors and the walk over a tree
//! - [`filtering`]: the size and age filter, and the ordering of projects
//! - [`cleaner`]: the steps of cleaning one project, and the summary of a run
//! - [`executables`]: which files are copied out before artifacts are removed
//! - [`output`]: structured results of a run
//! - [`cli`], [`config`]: arguments and settings, and how they combine
//! - [`text`], [`path`], [`sorting`]: the text, path and sorting utilities
//!   that the rest is built on

pub mod cleaner;
pub mod cli;
pub mod config;
pub mod executables;
pub mod filtering;
pub mod output;
pub mod path;
pub mod project;
pub mod scanner;
pub mod snapshot;
pub mod sorting;
pub mod text;
pub mod utils;

pub use config::{
    ExecutionOptions, FileConfig, FilterOptions, ProjectFilter, ScanOptions, SortCriteria,
    SortOptions,
};
