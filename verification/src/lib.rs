//! Verified core of a release-publishing tool: given a created release and a
//! filesystem location, discover the candidate files, build one upload request
//! per file, and aggregate per-file success or failure — one failed upload
//! never aborts the others.
//!
//! The crate holds the decision logic only. The surrounding binary performs
//! the filesystem probing, the HTTP calls and the progress rendering, and
//! hands the observed values (directory entries, response status and body)
//! to the functions here.

pub mod config;
pub mod coordinator;
pub mod errors;
pub mod progress;
pub mod release;
pub mod resolver;
pub mod textenc;
pub mod transport;
