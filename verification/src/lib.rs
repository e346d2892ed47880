//! Core of a launcher that tracks, installs, and removes versioned Blender
//! builds pulled from several release channels (daily, branched, stable, LTS,
//! archived) and keeps a local set of installed builds in sync with a single
//! designated default.
//!
//! The crate covers the package lifecycle state machine, the per-channel
//! release merge and update-detection algorithm, the install pipeline's
//! policy gate and its at-most-one-pipeline-per-package rule, policy-driven
//! pruning of superseded builds, and the byte format in which channel records
//! are persisted. Networking, the filesystem, and the user interface stay
//! outside: they hand plain values in and take plain values back.

pub mod catalog;
pub mod codec;
pub mod config;
pub mod filters;
pub mod installed;
pub mod launcher;
pub mod package;
pub mod pipeline;
pub mod store;

use vstd::prelude::*;

verus! {

} // verus!
