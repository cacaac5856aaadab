//! Dependencies of a package.

pub mod kind;

pub use kind::Kind;
