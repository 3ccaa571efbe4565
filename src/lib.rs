//! Query-to-response core of a file search service: request parameters,
//! requested-field sets, per-hit projection, match highlighting and the
//! configuration of the server process.

pub mod config;
pub mod highlight;
pub mod search;
pub mod status;
