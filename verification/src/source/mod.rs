//! The places items are collected from, and what makes their answers items.
pub mod mcp;
pub mod feed_body;
pub mod rss;
pub mod searxng;

use vstd::prelude::*;

verus! {

/// Why a source's answer gave no items.
#[derive(Debug)]
pub enum SourceError {
    /// The MCP answer is not JSON; `text` is what was read.
    InvalidJson { text: String },
    /// The MCP answer is JSON but not an array.
    NotAnArray,
    /// The single JSON object of an MCP answer has no URL field.
    MissingUrl,
    /// The MCP tool `tool` reported an error, with the text it gave.
    ToolError { tool: String, text: String },
}

} // verus!
