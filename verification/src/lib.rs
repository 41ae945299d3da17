//! Bridge between a structured search request and an external line-oriented
//! text-search tool: builds the tool's argument list, classifies its exit
//! status, and parses its `path:line:column:content` output into records.
//!
//! The process itself is spawned by the surrounding application; everything
//! here is a pure function of the captured values, verified end to end.

pub mod args;
pub mod numbers;
pub mod outcome;
pub mod parse;
pub mod record;
pub mod split;
pub mod text;
