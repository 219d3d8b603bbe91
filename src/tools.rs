//! The outcome of running an agent tool.

use vstd::prelude::*;

verus! {

/// What a tool run produced.
#[derive(Debug, Clone)]
pub struct ToolResult {
    pub success: bool,
    pub output: String,
    pub error: Option<String>,
}

} // verus!
