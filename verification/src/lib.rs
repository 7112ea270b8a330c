//! Decision core of a package-inspection command: given a parsed package
//! specifier, an optional workspace pin and an optional target toolchain
//! version, decide which published version of the package to report, which
//! of its features end up activated, and how its dependencies are classified
//! for display.
//!
//! The core is pure: registry transport, workspace loading, argument parsing
//! and terminal output are collaborators that live outside this crate and
//! hand it plain values.

pub mod deps;
pub mod errors;
pub mod features;
pub mod owners;
pub mod package;
pub mod query;
pub mod render;
pub mod resolver;
pub mod select;
pub mod sorting;
pub mod source;
pub mod version;
