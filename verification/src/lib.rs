//! Planning and parsing for multiplatform Docker buildx image builds.
//!
//! The library decides which `docker buildx` invocations a build needs, parses
//! platform identifiers and `docker buildx inspect` output, and computes the
//! skip pattern that filters fringe platforms. Running the commands is left to
//! the caller.

pub mod error;
pub mod text;
pub mod platform;
pub mod pattern;
pub mod inspect;
pub mod command;
pub mod config;
pub mod run;
