//! Scripts made of shell commands.

pub mod task;
