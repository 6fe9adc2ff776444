//! What the first session of a daemon is put together from.

use crate::lsp_supervisor::LspSupervisor;
use crate::mcp_layers::{all_hooks, empty_layer, pair_views, LoadedMcp};
use crate::model::Model;
use crate::order::distinct;
use crate::orchestration::resources::{copy_pairs, holds_layer, SessionMcpResources};
use crate::text::{copy_texts, cut, owned, take_chars, texts};
use vstd::prelude::*;

verus! {

/// The MCP servers of the first session: those of the configuration files where the daemon
/// reads them, else those that the controller provides, of which there are none yet.
pub fn load_mcp_resources(load_local_sources: bool, loaded: LoadedMcp) -> (r: SessionMcpResources)
    ensures
        r.provisioned == !load_local_sources,
        r.overlay is None,
        load_local_sources ==> {
            &&& holds_layer(r, loaded.layer@)
            &&& r.notification_hooks@ == all_hooks(loaded.layer@.servers)
            &&& r.daemon_configs == loaded.configs
        },
        !load_local_sources ==> {
            &&& holds_layer(r, empty_layer())
            &&& r.notification_hooks@.len() == 0
            &&& r.daemon_configs@.len() == 0
        },
{
    let mut r = SessionMcpResources::from_loaded(
        if load_local_sources {
            loaded
        } else {
            LoadedMcp::empty()
        },
    );
    if !load_local_sources {
        r.provisioned = true;
    }
    r
}

/// How many languages have a server, and whether diagnostics are attached to what tools give
/// back.
pub fn lsp_support(supervisor: &LspSupervisor) -> (r: (usize, bool))
    ensures
        r.0 == distinct(
            supervisor.language_ids(supervisor.by_ext.key_order().len() as int),
        ).len(),
        r.1 == !(supervisor.by_ext@ =~= Map::empty()),
{
    (supervisor.language_count(), !supervisor.is_empty())
}

/// What a daemon tells its clients that it can do.
#[derive(Debug)]
pub struct RuntimeCapabilities {
    pub mcp_servers: usize,
    pub mcp_tools: usize,
    pub mcp_server_names: Vec<String>,
    pub mcp_tool_names: Vec<String>,
    pub mcp_server_errors: Vec<(String, String)>,
    pub tool_names: Vec<String>,
    pub mcp_notification_hooks: usize,
    /// The points at which hooks of the daemon are in force.
    pub hook_points: Vec<String>,
    /// What the triggers of the daemon can do.
    pub trigger_features: Vec<String>,
}

/// What a daemon tells its clients that it can do when it starts. The hook points and the
/// features of triggers are told as the caller gives them.
pub fn runtime_capabilities(
    mcp: &SessionMcpResources,
    tool_names: &Vec<String>,
    hook_points: Vec<String>,
    trigger_features: Vec<String>,
) -> (r: RuntimeCapabilities)
    ensures
        r.hook_points == hook_points,
        r.trigger_features == trigger_features,
        r.mcp_servers == mcp.server_count,
        r.mcp_tools == mcp.tool_names@.len(),
        texts(r.mcp_server_names@) == texts(mcp.server_names@),
        texts(r.mcp_tool_names@) == texts(mcp.tool_names@),
        pair_views(r.mcp_server_errors@) == pair_views(mcp.server_errors@),
        texts(r.tool_names@) == texts(tool_names@),
        r.mcp_notification_hooks == mcp.notification_hook_count,
{
    RuntimeCapabilities {
        mcp_servers: mcp.server_count,
        mcp_tools: mcp.tool_names.len(),
        mcp_server_names: copy_texts(&mcp.server_names),
        mcp_tool_names: copy_texts(&mcp.tool_names),
        mcp_server_errors: copy_pairs(&mcp.server_errors),
        tool_names: copy_texts(tool_names),
        mcp_notification_hooks: mcp.notification_hook_count,
        hook_points,
        trigger_features,
    }
}

// The summary of thinking.

pub const SUMMARY_PROMPT: &'static str =
    "Summarize the following reasoning transcript into a STRUCTURED markdown summary. Output ONLY the summary:\n## Goal\n- ...\n## Key steps\n- ...\n## Findings\n- ...\n## Decision\n- ...\n\nThinking transcript:\n\n";

pub const SUMMARY_SYSTEM_PROMPT: &'static str =
    "You are a thinking summarizer: compress verbose step-by-step reasoning into a concise structured summary. Never run tools. Never add commentary beyond the summary.";

/// To how many characters a transcript is cut before it is summarized.
pub const SUMMARY_MAX_CHARS: usize = 24_000;

pub const NO_SUMMARY_SPEC: &'static str = "general subagent spec unavailable";

pub const NO_SUMMARY_MODEL: &'static str =
    "no model set for this session; cannot summarize thinking";

/// What the summarizer is asked about a transcript, of which it reads no more than the first
/// characters. It needs an agent to run, and a model.
pub fn summary_prompt(agent_known: bool, model: &Option<Model>, transcript: &str) -> (r: Result<
    String,
    String,
>)
    ensures
        if !agent_known {
            r matches Err(e) && e@ == NO_SUMMARY_SPEC@
        } else if model is None {
            r matches Err(e) && e@ == NO_SUMMARY_MODEL@
        } else {
            r matches Ok(p) && p@ == SUMMARY_PROMPT@ + cut(transcript@, SUMMARY_MAX_CHARS as int)
        },
{
    if !agent_known {
        return Err(owned(NO_SUMMARY_SPEC));
    }
    if model.is_none() {
        return Err(owned(NO_SUMMARY_MODEL));
    }
    let mut p = owned(SUMMARY_PROMPT);
    p.push_str(take_chars(transcript, SUMMARY_MAX_CHARS).as_str());
    Ok(p)
}

/// The summary that the run of the summarizer gave.
pub fn summary_result(text: String, error: Option<String>) -> (r: Result<String, String>)
    ensures
        match error {
            Some(e) => r matches Err(f) && f == e,
            None => r matches Ok(t) && t == text,
        },
{
    match error {
        Some(e) => Err(e),
        None => Ok(text),
    }
}

} // verus!
