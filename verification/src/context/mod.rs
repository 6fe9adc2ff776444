//! What the agent is told at the start of a session.

use crate::text::{opt_text, texts};
use lineage::{lineage_block, render_block, CompactContext};
use service::as_opt_str;
use system_prompt::{compose_system_prompt, system_prompt};
use vstd::prelude::*;

pub mod lineage;
pub mod service;
pub mod system_prompt;

verus! {

/// The block on where a session comes from, with the summary of the old one.
pub fn render_lineage(compact: &Option<CompactContext>, collapse_node_id: &Option<String>) -> (r:
    Option<String>)
    ensures
        opt_text(r) == lineage_block(*compact, opt_text(*collapse_node_id), true),
{
    render_block(compact, collapse_node_id, true)
}

/// The system prompt of a session, from what a collapse has left in it.
pub fn system_prompt_for_session(
    cwd: &str,
    memory: &str,
    tool_names: &Vec<String>,
    compact: &Option<CompactContext>,
    node_id: &Option<String>,
) -> (r: String)
    ensures
        r@ == system_prompt(
            cwd@,
            memory@,
            texts(tool_names@),
            lineage_block(*compact, opt_text(*node_id), true),
            None,
        ),
{
    let lineage = render_lineage(compact, node_id);
    compose_system_prompt(cwd, memory, tool_names, as_opt_str(&lineage), None)
}

} // verus!
