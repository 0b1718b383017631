//! Retrieval of daily Gospel readings: calendar arithmetic, request-URL
//! construction, projection of the upstream JSON shape down to the Gospel
//! entries, and rendering of the output files, all with verified contracts.
//!
//! Network access, command-line parsing and file writes live outside this
//! crate; it works on plain values handed in from there.

pub mod dates;
pub mod iso;
pub mod json;
pub mod project;
pub mod render;
pub mod output;
pub mod api;
pub mod args;
