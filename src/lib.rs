//! Builds one source-unit record per Cargo package of a source tree: its
//! identity, its source files and its dependencies, each resolved against the
//! workspace's dependency graph.

pub mod model;
pub mod paths;
pub mod resolve;
pub mod scan;
pub mod text;
pub mod types;
pub mod version;
