//! Selective directory pruner: plans the removal of every entry of a
//! directory that is not named in a caller-supplied keep set, with hidden
//! entries always spared.
//!
//! The library works on canonical path strings and entry listings supplied by
//! the caller; it decides which entries are deleted, in which way, and which
//! runs must abort, and proves those decisions correct. Reading directories
//! and removing files is the caller's side.

pub mod laws;
pub mod paths;
pub mod plan;
pub mod resolve;
