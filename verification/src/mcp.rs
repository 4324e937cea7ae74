//! The MCP `CallToolResult` shape: what a tool call returns to a client.
use vstd::prelude::*;

use crate::audience::Audience;
use crate::text::owned;

verus! {

/// One text content block, tagged with the audiences it is meant for.
#[derive(Debug, Clone, PartialEq)]
#[non_exhaustive]
pub struct ContentBlock {
    /// The block's text.
    pub text: String,
    /// Which surfaces the block is meant for.
    pub audience: Vec<Audience>,
}

impl ContentBlock {
    /// A block with the given text and audiences.
    pub fn new(text: &str, audience: Vec<Audience>) -> (b: Self)
        ensures
            b.text@ == text@,
            b.audience == audience,
    {
        ContentBlock { text: owned(text), audience }
    }
}

/// What a tool call returns to a client.
#[derive(Debug, Clone, PartialEq)]
#[non_exhaustive]
pub struct CallToolResult {
    /// Text content blocks.
    pub content: Vec<ContentBlock>,
    /// Whether this is a tool execution error.
    pub is_error: bool,
    /// Machine-readable JSON companion to the text content.
    pub structured_content: String,
}

impl CallToolResult {
    /// A result from its parts.
    pub fn new(content: Vec<ContentBlock>, is_error: bool, structured_content: &str) -> (r: Self)
        ensures
            r.content == content,
            r.is_error == is_error,
            r.structured_content@ == structured_content@,
    {
        CallToolResult { content, is_error, structured_content: owned(structured_content) }
    }
}

} // verus!
