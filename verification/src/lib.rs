//! Version bumping and dependency bookkeeping for Cargo and npm packages.

pub mod bump;
pub mod command;
pub mod dependency;
pub mod error;
pub mod git;
pub mod glob;
pub mod lua;
pub mod order;
pub mod package;
pub mod packages;
pub mod text;
pub mod version;
