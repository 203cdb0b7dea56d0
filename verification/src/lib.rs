//! Host health snapshots: a verified core for reading one machine's CPU and
//! memory state into a complete, never-absent `Stats` value.
//!
//! The platform reads themselves (and the one-second sampling wait) happen
//! outside this crate; the library receives their outcomes as plain values,
//! normalizes them into a snapshot with a well-defined fallback on failure,
//! and renders the snapshot as JSON.

pub mod stats;
pub mod numfmt;
pub mod snapshot;
pub mod json;
pub mod parse;
