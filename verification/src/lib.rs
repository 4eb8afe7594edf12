//! State manager of a small personal document library.
//!
//! `state` holds the documents and their registry, `routes::stats` the
//! reading-activity tracker, and `persistence` the step that finds new
//! source files and the snapshot that bundles registry and tracker. The
//! other modules of `routes` hold what a request does to them, and `tui`
//! what a terminal client keeps of them.

pub mod persistence;
pub mod routes;
pub mod state;
pub mod tui;
