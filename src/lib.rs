//! Resolution of the effective versions of the dependencies declared by a
//! multi-module build project, its modules and its chain of parent descriptors.

pub mod model;
pub mod text;
pub mod loader;
pub mod resolve;
pub mod walk;
pub mod report;
pub mod remote;
pub mod laws;
