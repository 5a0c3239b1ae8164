//! Projects, their build artifacts, and collections of projects.

pub mod project;
pub mod projects;

pub use project::{BuildArtifacts, Project, ProjectType};
pub use projects::Projects;
