//! Verified core of a generation-cleanup helper for a declarative
//! system-configuration tool.
//!
//! The crate models profiles, generations and garbage-collection roots as
//! plain values, decides which of them a retention policy keeps, and plans
//! the deletions and collector invocations that follow.  The decision logic
//! is verified; reading directories, deleting files and running external
//! commands are left to the binary that drives this library.

pub mod checks;
pub mod commands;
pub mod clean;
pub mod generations;
pub mod installable;
pub mod interface;
pub mod nixos;
pub mod text;
pub mod update;
pub mod util;
