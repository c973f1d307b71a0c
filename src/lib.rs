//! Selective deletion inside one directory: every entry directly inside the
//! working directory is removed, except the entries that the caller asked to
//! keep.
//!
//! The library decides; the caller performs the filesystem work. `path`
//! resolves preserve-targets lexically against an explicit working directory,
//! `preflight` holds the whole-run gates that run before anything is deleted,
//! `removal` decides, entry by entry, what happens to each directory entry
//! and gathers the per-entry failures of a run, and `laws` states what a whole
//! run leaves in the working directory and proves what holds of it.

pub mod path;
pub mod preflight;
pub mod removal;
pub mod laws;
