//! Tool adapters: MCP client plumbing, workspace files, web access, skills, the
//! operator's todo list and questions, media, terminal and code execution.

pub mod browser;
pub mod computer;
pub mod execute_code;
pub mod mcp;
pub mod media;
pub mod memory;
pub mod operator;
pub mod skills;
pub mod terminal;
pub mod web;
pub mod workspace;

use vstd::prelude::*;

verus! {

/// Smoke check that the tool adapters are loadable.
pub fn crate_name() -> (r: &'static str)
    ensures
        r@ == "keryx-tools"@,
{
    "keryx-tools"
}

} // verus!
