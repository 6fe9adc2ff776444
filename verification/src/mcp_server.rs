//! The tools that the daemon offers over the Model Context Protocol: the manifest that
//! `tools/list` shows, and the plan that a `tools/call` makes from a tool name and its
//! arguments.
//!
//! A plan says which operation of the shared service runs and with which values. Running
//! it, and turning its result into JSON, is left to the caller.

use crate::json::{
    array_member, bool_member, items_view, string_in, string_member, strings_view, uint_member,
    Json, JsonView,
};
use crate::text::{is_blank, opt_text, owned, texts, trimmed};
use vstd::prelude::*;

verus! {

/// One tool of the manifest.
#[derive(Clone, Copy, Debug, PartialEq, Eq, Structural)]
pub enum ToolName {
    SessionList,
    SessionCreate,
    SessionRename,
    SessionDelete,
    SessionGetSnapshot,
    SessionListMessages,
    GraphList,
    GraphClear,
    GraphCancel,
    GraphRetry,
    GraphSkip,
    GetNodeOutput,
    ToolRead,
    ToolWrite,
    ToolEdit,
    ToolExec,
    ToolListDir,
    ToolGrep,
    ToolFind,
    ToolMemorySave,
    ToolMemoryList,
    ToolMemoryRead,
    ToolMemoryForget,
    ToolSkillInstall,
    SettingsGetConfig,
    SettingsSetConfig,
    SettingsGetPathContext,
    SettingsSetSkillDirs,
    StorageSaveDagRun,
    StorageLoadDagRuns,
}

/// The type of a tool parameter.
#[derive(Clone, Copy, Debug, PartialEq, Eq, Structural)]
pub enum ParamKind {
    Text,
    Integer,
    Flag,
    TextList,
}

/// One parameter of a tool, as its schema declares it.
#[derive(Debug)]
pub struct Param {
    pub name: &'static str,
    pub kind: ParamKind,
    pub required: bool,
    pub minimum: Option<u64>,
}

/// The content of a `Param`.
pub struct ParamView {
    pub name: Seq<char>,
    pub kind: ParamKind,
    pub required: bool,
    pub minimum: Option<u64>,
}

impl View for Param {
    type V = ParamView;

    open spec fn view(&self) -> ParamView {
        ParamView {
            name: self.name@,
            kind: self.kind,
            required: self.required,
            minimum: self.minimum,
        }
    }
}

/// The contents of a list of parameters.
pub open spec fn params_view(v: Seq<Param>) -> Seq<ParamView> {
    Seq::new(v.len(), |i: int| v[i]@)
}

pub open spec fn needs(name: Seq<char>, kind: ParamKind) -> ParamView {
    ParamView { name, kind, required: true, minimum: None }
}

pub open spec fn allows(name: Seq<char>, kind: ParamKind) -> ParamView {
    ParamView { name, kind, required: false, minimum: None }
}

pub open spec fn allows_from(name: Seq<char>, minimum: u64) -> ParamView {
    ParamView { name, kind: ParamKind::Integer, required: false, minimum: Some(minimum) }
}

fn need(name: &'static str, kind: ParamKind) -> (r: Param)
    ensures
        r@ == needs(name@, kind),
{
    Param { name, kind, required: true, minimum: None }
}

fn allow(name: &'static str, kind: ParamKind) -> (r: Param)
    ensures
        r@ == allows(name@, kind),
{
    Param { name, kind, required: false, minimum: None }
}

fn allow_from(name: &'static str, minimum: u64) -> (r: Param)
    ensures
        r@ == allows_from(name@, minimum),
{
    Param { name, kind: ParamKind::Integer, required: false, minimum: Some(minimum) }
}

/// The name that a tool is called by.
pub open spec fn tool_text(t: ToolName) -> Seq<char> {
    match t {
        ToolName::SessionList => "session_list"@,
        ToolName::SessionCreate => "session_create"@,
        ToolName::SessionRename => "session_rename"@,
        ToolName::SessionDelete => "session_delete"@,
        ToolName::SessionGetSnapshot => "session_get_snapshot"@,
        ToolName::SessionListMessages => "session_list_messages"@,
        ToolName::GraphList => "graph_list"@,
        ToolName::GraphClear => "graph_clear"@,
        ToolName::GraphCancel => "graph_cancel"@,
        ToolName::GraphRetry => "graph_retry"@,
        ToolName::GraphSkip => "graph_skip"@,
        ToolName::GetNodeOutput => "get_node_output"@,
        ToolName::ToolRead => "tool_read"@,
        ToolName::ToolWrite => "tool_write"@,
        ToolName::ToolEdit => "tool_edit"@,
        ToolName::ToolExec => "tool_exec"@,
        ToolName::ToolListDir => "tool_list_dir"@,
        ToolName::ToolGrep => "tool_grep"@,
        ToolName::ToolFind => "tool_find"@,
        ToolName::ToolMemorySave => "tool_memory_save"@,
        ToolName::ToolMemoryList => "tool_memory_list"@,
        ToolName::ToolMemoryRead => "tool_memory_read"@,
        ToolName::ToolMemoryForget => "tool_memory_forget"@,
        ToolName::ToolSkillInstall => "tool_skill_install"@,
        ToolName::SettingsGetConfig => "settings_get_config"@,
        ToolName::SettingsSetConfig => "settings_set_config"@,
        ToolName::SettingsGetPathContext => "settings_get_path_context"@,
        ToolName::SettingsSetSkillDirs => "settings_set_skill_dirs"@,
        ToolName::StorageSaveDagRun => "storage_save_dag_run"@,
        ToolName::StorageLoadDagRuns => "storage_load_dag_runs"@,
    }
}

/// The description of a tool in the manifest.
pub open spec fn tool_description(t: ToolName) -> Seq<char> {
    match t {
        ToolName::SessionList => "List sessions (oldest → newest)."@,
        ToolName::SessionCreate => "Create a session."@,
        ToolName::SessionRename => "Rename a session (full id or unique prefix)."@,
        ToolName::SessionDelete => "Delete a session; refused while it has running graphs."@,
        ToolName::SessionGetSnapshot => "Authoritative current session snapshot."@,
        ToolName::SessionListMessages => "Cursor-paginated full message history."@,
        ToolName::GraphList => "List DAG/goal runs of a session."@,
        ToolName::GraphClear => "Clear the terminal DAG/goal runs of a session, keeping running runs."@,
        ToolName::GraphCancel => "Cancel a DAG/goal run."@,
        ToolName::GraphRetry => "Retry a run (optionally one node)."@,
        ToolName::GraphSkip => "Skip one run node."@,
        ToolName::GetNodeOutput => "Read a graph node's output and structured messages."@,
        ToolName::ToolRead => "Read a file as UTF-8 text with line pagination."@,
        ToolName::ToolWrite => "Create/overwrite a file."@,
        ToolName::ToolEdit => "Search-and-replace edit a file."@,
        ToolName::ToolExec => "Run a shell command line (collected unary result)."@,
        ToolName::ToolListDir => "List one directory level."@,
        ToolName::ToolGrep => "Regex content search under a root."@,
        ToolName::ToolFind => "Filename-glob search under a root."@,
        ToolName::ToolMemorySave => "Save a cross-session memory entry."@,
        ToolName::ToolMemoryList => "List memory entries."@,
        ToolName::ToolMemoryRead => "Read one memory entry."@,
        ToolName::ToolMemoryForget => "Delete one memory entry."@,
        ToolName::ToolSkillInstall => "Two-phase skill install (preview unless confirm)."@,
        ToolName::SettingsGetConfig => "Current daemon configuration view."@,
        ToolName::SettingsSetConfig => "Queue a partial daemon configuration update."@,
        ToolName::SettingsGetPathContext => "Daemon path context (home/base/work dir/skill dirs)."@,
        ToolName::SettingsSetSkillDirs => "Replace extra skill directories and hot-reload."@,
        ToolName::StorageSaveDagRun => "Persist one DAG run snapshot."@,
        ToolName::StorageLoadDagRuns => "Load stored DAG runs for a session."@,
    }
}

/// The parameters of a tool, in the order of its schema.
pub open spec fn tool_params(t: ToolName) -> Seq<ParamView> {
    match t {
        ToolName::SessionList => seq![],
        ToolName::SessionCreate => seq![
            allows("session_id"@, ParamKind::Text),
            allows("name"@, ParamKind::Text),
        ],
        ToolName::SessionRename => seq![
            needs("id"@, ParamKind::Text),
            needs("name"@, ParamKind::Text),
        ],
        ToolName::SessionDelete => seq![
            needs("id"@, ParamKind::Text),
        ],
        ToolName::SessionGetSnapshot => seq![
            allows("session_id"@, ParamKind::Text),
        ],
        ToolName::SessionListMessages => seq![
            needs("session_id"@, ParamKind::Text),
            allows_from("limit"@, 1),
            allows("before_entry_id"@, ParamKind::Text),
        ],
        ToolName::GraphList => seq![
            needs("session_id"@, ParamKind::Text),
        ],
        ToolName::GraphClear => seq![
            allows("session_id"@, ParamKind::Text),
            allows("keep"@, ParamKind::Integer),
        ],
        ToolName::GraphCancel => seq![
            needs("run_id"@, ParamKind::Text),
        ],
        ToolName::GraphRetry => seq![
            needs("run_id"@, ParamKind::Text),
            allows("node_id"@, ParamKind::Text),
        ],
        ToolName::GraphSkip => seq![
            needs("run_id"@, ParamKind::Text),
            needs("node_id"@, ParamKind::Text),
        ],
        ToolName::GetNodeOutput => seq![
            needs("run_id"@, ParamKind::Text),
            needs("node_id"@, ParamKind::Text),
            allows_from("offset"@, 0),
        ],
        ToolName::ToolRead => seq![
            needs("path"@, ParamKind::Text),
            allows_from("offset"@, 1),
            allows_from("limit"@, 1),
        ],
        ToolName::ToolWrite => seq![
            needs("path"@, ParamKind::Text),
            needs("content"@, ParamKind::Text),
        ],
        ToolName::ToolEdit => seq![
            needs("path"@, ParamKind::Text),
            needs("old_text"@, ParamKind::Text),
            needs("new_text"@, ParamKind::Text),
        ],
        ToolName::ToolExec => seq![
            needs("command"@, ParamKind::Text),
        ],
        ToolName::ToolListDir => seq![
            needs("path"@, ParamKind::Text),
        ],
        ToolName::ToolGrep => seq![
            needs("path"@, ParamKind::Text),
            needs("pattern"@, ParamKind::Text),
        ],
        ToolName::ToolFind => seq![
            needs("path"@, ParamKind::Text),
            needs("pattern"@, ParamKind::Text),
        ],
        ToolName::ToolMemorySave => seq![
            needs("name"@, ParamKind::Text),
            needs("content"@, ParamKind::Text),
        ],
        ToolName::ToolMemoryList => seq![],
        ToolName::ToolMemoryRead => seq![
            needs("name"@, ParamKind::Text),
        ],
        ToolName::ToolMemoryForget => seq![
            needs("name"@, ParamKind::Text),
        ],
        ToolName::ToolSkillInstall => seq![
            needs("source"@, ParamKind::Text),
            allows("confirm"@, ParamKind::Flag),
        ],
        ToolName::SettingsGetConfig => seq![],
        ToolName::SettingsSetConfig => seq![
            allows("provider"@, ParamKind::Text),
            allows("model"@, ParamKind::Text),
            allows("base_url"@, ParamKind::Text),
            allows("thinking"@, ParamKind::Flag),
            allows("thinking_level"@, ParamKind::Text),
            allows("builtin_skills"@, ParamKind::TextList),
            allows("skills_dirs"@, ParamKind::TextList),
            allows("trigger_poll_secs"@, ParamKind::Integer),
            allows("tui_max_feed_lines"@, ParamKind::Integer),
            allows("tool_service_addr"@, ParamKind::Text),
            allows("storage_service_addr"@, ParamKind::Text),
        ],
        ToolName::SettingsGetPathContext => seq![],
        ToolName::SettingsSetSkillDirs => seq![
            needs("dirs"@, ParamKind::TextList),
        ],
        ToolName::StorageSaveDagRun => seq![
            needs("session_id"@, ParamKind::Text),
            needs("run_id"@, ParamKind::Text),
            needs("snapshot"@, ParamKind::Text),
        ],
        ToolName::StorageLoadDagRuns => seq![
            needs("session_id"@, ParamKind::Text),
            allows("run_id"@, ParamKind::Text),
        ],
    }
}

/// The tools of the manifest, in its order.
pub open spec fn all_tools() -> Seq<ToolName> {
    seq![
        ToolName::SessionList,
        ToolName::SessionCreate,
        ToolName::SessionRename,
        ToolName::SessionDelete,
        ToolName::SessionGetSnapshot,
        ToolName::SessionListMessages,
        ToolName::GraphList,
        ToolName::GraphClear,
        ToolName::GraphCancel,
        ToolName::GraphRetry,
        ToolName::GraphSkip,
        ToolName::GetNodeOutput,
        ToolName::ToolRead,
        ToolName::ToolWrite,
        ToolName::ToolEdit,
        ToolName::ToolExec,
        ToolName::ToolListDir,
        ToolName::ToolGrep,
        ToolName::ToolFind,
        ToolName::ToolMemorySave,
        ToolName::ToolMemoryList,
        ToolName::ToolMemoryRead,
        ToolName::ToolMemoryForget,
        ToolName::ToolSkillInstall,
        ToolName::SettingsGetConfig,
        ToolName::SettingsSetConfig,
        ToolName::SettingsGetPathContext,
        ToolName::SettingsSetSkillDirs,
        ToolName::StorageSaveDagRun,
        ToolName::StorageLoadDagRuns,
    ]
}

/// The tool that a name denotes.
pub open spec fn tool_named(name: Seq<char>) -> Option<ToolName> {
    if name == "session_list"@ {
        Some(ToolName::SessionList)
    } else if name == "session_create"@ {
        Some(ToolName::SessionCreate)
    } else if name == "session_rename"@ {
        Some(ToolName::SessionRename)
    } else if name == "session_delete"@ {
        Some(ToolName::SessionDelete)
    } else if name == "session_get_snapshot"@ {
        Some(ToolName::SessionGetSnapshot)
    } else if name == "session_list_messages"@ {
        Some(ToolName::SessionListMessages)
    } else if name == "graph_list"@ {
        Some(ToolName::GraphList)
    } else if name == "graph_clear"@ {
        Some(ToolName::GraphClear)
    } else if name == "graph_cancel"@ {
        Some(ToolName::GraphCancel)
    } else if name == "graph_retry"@ {
        Some(ToolName::GraphRetry)
    } else if name == "graph_skip"@ {
        Some(ToolName::GraphSkip)
    } else if name == "get_node_output"@ {
        Some(ToolName::GetNodeOutput)
    } else if name == "tool_read"@ {
        Some(ToolName::ToolRead)
    } else if name == "tool_write"@ {
        Some(ToolName::ToolWrite)
    } else if name == "tool_edit"@ {
        Some(ToolName::ToolEdit)
    } else if name == "tool_exec"@ {
        Some(ToolName::ToolExec)
    } else if name == "tool_list_dir"@ {
        Some(ToolName::ToolListDir)
    } else if name == "tool_grep"@ {
        Some(ToolName::ToolGrep)
    } else if name == "tool_find"@ {
        Some(ToolName::ToolFind)
    } else if name == "tool_memory_save"@ {
        Some(ToolName::ToolMemorySave)
    } else if name == "tool_memory_list"@ {
        Some(ToolName::ToolMemoryList)
    } else if name == "tool_memory_read"@ {
        Some(ToolName::ToolMemoryRead)
    } else if name == "tool_memory_forget"@ {
        Some(ToolName::ToolMemoryForget)
    } else if name == "tool_skill_install"@ {
        Some(ToolName::ToolSkillInstall)
    } else if name == "settings_get_config"@ {
        Some(ToolName::SettingsGetConfig)
    } else if name == "settings_set_config"@ {
        Some(ToolName::SettingsSetConfig)
    } else if name == "settings_get_path_context"@ {
        Some(ToolName::SettingsGetPathContext)
    } else if name == "settings_set_skill_dirs"@ {
        Some(ToolName::SettingsSetSkillDirs)
    } else if name == "storage_save_dag_run"@ {
        Some(ToolName::StorageSaveDagRun)
    } else if name == "storage_load_dag_runs"@ {
        Some(ToolName::StorageLoadDagRuns)
    } else {
        None
    }
}

impl ToolName {
    /// The name that the tool is called by.
    pub fn as_str(self) -> (r: &'static str)
        ensures
            r@ == tool_text(self),
    {
        match self {
            ToolName::SessionList => "session_list",
            ToolName::SessionCreate => "session_create",
            ToolName::SessionRename => "session_rename",
            ToolName::SessionDelete => "session_delete",
            ToolName::SessionGetSnapshot => "session_get_snapshot",
            ToolName::SessionListMessages => "session_list_messages",
            ToolName::GraphList => "graph_list",
            ToolName::GraphClear => "graph_clear",
            ToolName::GraphCancel => "graph_cancel",
            ToolName::GraphRetry => "graph_retry",
            ToolName::GraphSkip => "graph_skip",
            ToolName::GetNodeOutput => "get_node_output",
            ToolName::ToolRead => "tool_read",
            ToolName::ToolWrite => "tool_write",
            ToolName::ToolEdit => "tool_edit",
            ToolName::ToolExec => "tool_exec",
            ToolName::ToolListDir => "tool_list_dir",
            ToolName::ToolGrep => "tool_grep",
            ToolName::ToolFind => "tool_find",
            ToolName::ToolMemorySave => "tool_memory_save",
            ToolName::ToolMemoryList => "tool_memory_list",
            ToolName::ToolMemoryRead => "tool_memory_read",
            ToolName::ToolMemoryForget => "tool_memory_forget",
            ToolName::ToolSkillInstall => "tool_skill_install",
            ToolName::SettingsGetConfig => "settings_get_config",
            ToolName::SettingsSetConfig => "settings_set_config",
            ToolName::SettingsGetPathContext => "settings_get_path_context",
            ToolName::SettingsSetSkillDirs => "settings_set_skill_dirs",
            ToolName::StorageSaveDagRun => "storage_save_dag_run",
            ToolName::StorageLoadDagRuns => "storage_load_dag_runs",
        }
    }

    /// The tool that a name denotes.
    pub fn named(name: &str) -> (r: Option<ToolName>)
        ensures
            r == tool_named(name@),
    {
        if name.eq("session_list") {
            Some(ToolName::SessionList)
        } else if name.eq("session_create") {
            Some(ToolName::SessionCreate)
        } else if name.eq("session_rename") {
            Some(ToolName::SessionRename)
        } else if name.eq("session_delete") {
            Some(ToolName::SessionDelete)
        } else if name.eq("session_get_snapshot") {
            Some(ToolName::SessionGetSnapshot)
        } else if name.eq("session_list_messages") {
            Some(ToolName::SessionListMessages)
        } else if name.eq("graph_list") {
            Some(ToolName::GraphList)
        } else if name.eq("graph_clear") {
            Some(ToolName::GraphClear)
        } else if name.eq("graph_cancel") {
            Some(ToolName::GraphCancel)
        } else if name.eq("graph_retry") {
            Some(ToolName::GraphRetry)
        } else if name.eq("graph_skip") {
            Some(ToolName::GraphSkip)
        } else if name.eq("get_node_output") {
            Some(ToolName::GetNodeOutput)
        } else if name.eq("tool_read") {
            Some(ToolName::ToolRead)
        } else if name.eq("tool_write") {
            Some(ToolName::ToolWrite)
        } else if name.eq("tool_edit") {
            Some(ToolName::ToolEdit)
        } else if name.eq("tool_exec") {
            Some(ToolName::ToolExec)
        } else if name.eq("tool_list_dir") {
            Some(ToolName::ToolListDir)
        } else if name.eq("tool_grep") {
            Some(ToolName::ToolGrep)
        } else if name.eq("tool_find") {
            Some(ToolName::ToolFind)
        } else if name.eq("tool_memory_save") {
            Some(ToolName::ToolMemorySave)
        } else if name.eq("tool_memory_list") {
            Some(ToolName::ToolMemoryList)
        } else if name.eq("tool_memory_read") {
            Some(ToolName::ToolMemoryRead)
        } else if name.eq("tool_memory_forget") {
            Some(ToolName::ToolMemoryForget)
        } else if name.eq("tool_skill_install") {
            Some(ToolName::ToolSkillInstall)
        } else if name.eq("settings_get_config") {
            Some(ToolName::SettingsGetConfig)
        } else if name.eq("settings_set_config") {
            Some(ToolName::SettingsSetConfig)
        } else if name.eq("settings_get_path_context") {
            Some(ToolName::SettingsGetPathContext)
        } else if name.eq("settings_set_skill_dirs") {
            Some(ToolName::SettingsSetSkillDirs)
        } else if name.eq("storage_save_dag_run") {
            Some(ToolName::StorageSaveDagRun)
        } else if name.eq("storage_load_dag_runs") {
            Some(ToolName::StorageLoadDagRuns)
        } else {
            None
        }
    }

    /// The description of the tool in the manifest.
    pub fn description(self) -> (r: &'static str)
        ensures
            r@ == tool_description(self),
    {
        match self {
            ToolName::SessionList => "List sessions (oldest → newest).",
            ToolName::SessionCreate => "Create a session.",
            ToolName::SessionRename => "Rename a session (full id or unique prefix).",
            ToolName::SessionDelete => "Delete a session; refused while it has running graphs.",
            ToolName::SessionGetSnapshot => "Authoritative current session snapshot.",
            ToolName::SessionListMessages => "Cursor-paginated full message history.",
            ToolName::GraphList => "List DAG/goal runs of a session.",
            ToolName::GraphClear => "Clear the terminal DAG/goal runs of a session, keeping running runs.",
            ToolName::GraphCancel => "Cancel a DAG/goal run.",
            ToolName::GraphRetry => "Retry a run (optionally one node).",
            ToolName::GraphSkip => "Skip one run node.",
            ToolName::GetNodeOutput => "Read a graph node's output and structured messages.",
            ToolName::ToolRead => "Read a file as UTF-8 text with line pagination.",
            ToolName::ToolWrite => "Create/overwrite a file.",
            ToolName::ToolEdit => "Search-and-replace edit a file.",
            ToolName::ToolExec => "Run a shell command line (collected unary result).",
            ToolName::ToolListDir => "List one directory level.",
            ToolName::ToolGrep => "Regex content search under a root.",
            ToolName::ToolFind => "Filename-glob search under a root.",
            ToolName::ToolMemorySave => "Save a cross-session memory entry.",
            ToolName::ToolMemoryList => "List memory entries.",
            ToolName::ToolMemoryRead => "Read one memory entry.",
            ToolName::ToolMemoryForget => "Delete one memory entry.",
            ToolName::ToolSkillInstall => "Two-phase skill install (preview unless confirm).",
            ToolName::SettingsGetConfig => "Current daemon configuration view.",
            ToolName::SettingsSetConfig => "Queue a partial daemon configuration update.",
            ToolName::SettingsGetPathContext => "Daemon path context (home/base/work dir/skill dirs).",
            ToolName::SettingsSetSkillDirs => "Replace extra skill directories and hot-reload.",
            ToolName::StorageSaveDagRun => "Persist one DAG run snapshot.",
            ToolName::StorageLoadDagRuns => "Load stored DAG runs for a session.",
        }
    }

    /// The parameters of the tool, in the order of its schema.
    pub fn params(self) -> (r: Vec<Param>)
        ensures
            params_view(r@) == tool_params(self),
    {
        let r: Vec<Param> = match self {
            ToolName::SessionList => Vec::new(),
            ToolName::SessionCreate => vec![
                allow("session_id", ParamKind::Text),
                allow("name", ParamKind::Text),
            ],
            ToolName::SessionRename => vec![
                need("id", ParamKind::Text),
                need("name", ParamKind::Text),
            ],
            ToolName::SessionDelete => vec![
                need("id", ParamKind::Text),
            ],
            ToolName::SessionGetSnapshot => vec![
                allow("session_id", ParamKind::Text),
            ],
            ToolName::SessionListMessages => vec![
                need("session_id", ParamKind::Text),
                allow_from("limit", 1),
                allow("before_entry_id", ParamKind::Text),
            ],
            ToolName::GraphList => vec![
                need("session_id", ParamKind::Text),
            ],
            ToolName::GraphClear => vec![
                allow("session_id", ParamKind::Text),
                allow("keep", ParamKind::Integer),
            ],
            ToolName::GraphCancel => vec![
                need("run_id", ParamKind::Text),
            ],
            ToolName::GraphRetry => vec![
                need("run_id", ParamKind::Text),
                allow("node_id", ParamKind::Text),
            ],
            ToolName::GraphSkip => vec![
                need("run_id", ParamKind::Text),
                need("node_id", ParamKind::Text),
            ],
            ToolName::GetNodeOutput => vec![
                need("run_id", ParamKind::Text),
                need("node_id", ParamKind::Text),
                allow_from("offset", 0),
            ],
            ToolName::ToolRead => vec![
                need("path", ParamKind::Text),
                allow_from("offset", 1),
                allow_from("limit", 1),
            ],
            ToolName::ToolWrite => vec![
                need("path", ParamKind::Text),
                need("content", ParamKind::Text),
            ],
            ToolName::ToolEdit => vec![
                need("path", ParamKind::Text),
                need("old_text", ParamKind::Text),
                need("new_text", ParamKind::Text),
            ],
            ToolName::ToolExec => vec![
                need("command", ParamKind::Text),
            ],
            ToolName::ToolListDir => vec![
                need("path", ParamKind::Text),
            ],
            ToolName::ToolGrep => vec![
                need("path", ParamKind::Text),
                need("pattern", ParamKind::Text),
            ],
            ToolName::ToolFind => vec![
                need("path", ParamKind::Text),
                need("pattern", ParamKind::Text),
            ],
            ToolName::ToolMemorySave => vec![
                need("name", ParamKind::Text),
                need("content", ParamKind::Text),
            ],
            ToolName::ToolMemoryList => Vec::new(),
            ToolName::ToolMemoryRead => vec![
                need("name", ParamKind::Text),
            ],
            ToolName::ToolMemoryForget => vec![
                need("name", ParamKind::Text),
            ],
            ToolName::ToolSkillInstall => vec![
                need("source", ParamKind::Text),
                allow("confirm", ParamKind::Flag),
            ],
            ToolName::SettingsGetConfig => Vec::new(),
            ToolName::SettingsSetConfig => vec![
                allow("provider", ParamKind::Text),
                allow("model", ParamKind::Text),
                allow("base_url", ParamKind::Text),
                allow("thinking", ParamKind::Flag),
                allow("thinking_level", ParamKind::Text),
                allow("builtin_skills", ParamKind::TextList),
                allow("skills_dirs", ParamKind::TextList),
                allow("trigger_poll_secs", ParamKind::Integer),
                allow("tui_max_feed_lines", ParamKind::Integer),
                allow("tool_service_addr", ParamKind::Text),
                allow("storage_service_addr", ParamKind::Text),
            ],
            ToolName::SettingsGetPathContext => Vec::new(),
            ToolName::SettingsSetSkillDirs => vec![
                need("dirs", ParamKind::TextList),
            ],
            ToolName::StorageSaveDagRun => vec![
                need("session_id", ParamKind::Text),
                need("run_id", ParamKind::Text),
                need("snapshot", ParamKind::Text),
            ],
            ToolName::StorageLoadDagRuns => vec![
                need("session_id", ParamKind::Text),
                allow("run_id", ParamKind::Text),
            ],
        };
        assert(params_view(r@) =~= tool_params(self));
        r
    }

    /// The tools of the manifest, in its order.
    pub fn all() -> (r: Vec<ToolName>)
        ensures
            r@ == all_tools(),
    {
        let r: Vec<ToolName> = vec![
            ToolName::SessionList,
            ToolName::SessionCreate,
            ToolName::SessionRename,
            ToolName::SessionDelete,
            ToolName::SessionGetSnapshot,
            ToolName::SessionListMessages,
            ToolName::GraphList,
            ToolName::GraphClear,
            ToolName::GraphCancel,
            ToolName::GraphRetry,
            ToolName::GraphSkip,
            ToolName::GetNodeOutput,
            ToolName::ToolRead,
            ToolName::ToolWrite,
            ToolName::ToolEdit,
            ToolName::ToolExec,
            ToolName::ToolListDir,
            ToolName::ToolGrep,
            ToolName::ToolFind,
            ToolName::ToolMemorySave,
            ToolName::ToolMemoryList,
            ToolName::ToolMemoryRead,
            ToolName::ToolMemoryForget,
            ToolName::ToolSkillInstall,
            ToolName::SettingsGetConfig,
            ToolName::SettingsSetConfig,
            ToolName::SettingsGetPathContext,
            ToolName::SettingsSetSkillDirs,
            ToolName::StorageSaveDagRun,
            ToolName::StorageLoadDagRuns,
        ];
        assert(r@ =~= all_tools());
        r
    }
}

/// The schema type of a parameter.
pub open spec fn kind_text(kind: ParamKind) -> Seq<char> {
    match kind {
        ParamKind::Text => "string"@,
        ParamKind::Integer => "integer"@,
        ParamKind::Flag => "boolean"@,
        ParamKind::TextList => "array"@,
    }
}

/// The schema of one parameter.
pub open spec fn param_schema(p: ParamView) -> JsonView {
    let base = Map::empty().insert("type"@, JsonView::Str(kind_text(p.kind)));
    let typed = if p.kind == ParamKind::TextList {
        base.insert(
            "items"@,
            JsonView::Object(Map::empty().insert("type"@, JsonView::Str("string"@))),
        )
    } else {
        base
    };
    match p.minimum {
        Some(n) => JsonView::Object(typed.insert("minimum"@, JsonView::UInt(n as nat))),
        None => JsonView::Object(typed),
    }
}

/// The schemas of parameters by their names.
pub open spec fn properties(params: Seq<ParamView>) -> Map<Seq<char>, JsonView>
    decreases params.len(),
{
    if params.len() == 0 {
        Map::empty()
    } else {
        properties(params.drop_last()).insert(params.last().name, param_schema(params.last()))
    }
}

/// The names of the required parameters, in order.
pub open spec fn required_names(params: Seq<ParamView>) -> Seq<Seq<char>>
    decreases params.len(),
{
    if params.len() == 0 {
        Seq::empty()
    } else if params.last().required {
        required_names(params.drop_last()).push(params.last().name)
    } else {
        required_names(params.drop_last())
    }
}

/// The input schema of a tool: an object with the declared properties, of which the
/// required ones are listed where there are any.
pub open spec fn input_schema(params: Seq<ParamView>) -> JsonView {
    let base = Map::empty().insert("type"@, JsonView::Str("object"@));
    let named = if required_names(params).len() > 0 {
        base.insert(
            "required"@,
            JsonView::Array(strings_view(required_names(params))),
        )
    } else {
        base
    };
    JsonView::Object(named.insert("properties"@, JsonView::Object(properties(params))))
}

fn param_schema_json(p: &Param) -> (r: Json)
    ensures
        r@ == param_schema(p@),
{
    let kind = match p.kind {
        ParamKind::Text => "string",
        ParamKind::Integer => "integer",
        ParamKind::Flag => "boolean",
        ParamKind::TextList => "array",
    };
    let base = Json::object().with("type", Json::text(kind));
    let typed = match p.kind {
        ParamKind::TextList => base.with(
            "items",
            Json::object().with("type", Json::text("string")),
        ),
        _ => base,
    };
    match p.minimum {
        Some(n) => typed.with("minimum", Json::UInt(n)),
        None => typed,
    }
}

fn input_schema_json(params: &Vec<Param>) -> (r: Json)
    ensures
        r@ == input_schema(params_view(params@)),
{
    let mut props = Json::object();
    let mut required: Vec<String> = Vec::new();
    let mut i: usize = 0;
    let ghost all = params_view(params@);
    assert(texts(required@) =~= required_names(all.take(0)));
    while i < params.len()
        invariant
            i <= params@.len(),
            all == params_view(params@),
            props@ == JsonView::Object(properties(all.take(i as int))),
            texts(required@) == required_names(all.take(i as int)),
        decreases params@.len() - i,
    {
        let p = &params[i];
        let ghost before = required@;
        assert(all.take(i + 1).drop_last() =~= all.take(i as int));
        props = props.with(p.name, param_schema_json(p));
        if p.required {
            required.push(owned(p.name));
            assert(texts(required@) =~= texts(before).push(p.name@));
        }
        i += 1;
    }
    assert(all.take(i as int) =~= all);
    let base = Json::object().with("type", Json::text("object"));
    let named = if required.len() > 0 {
        base.with("required", Json::text_array(&required))
    } else {
        base
    };
    named.with("properties", props)
}

/// One entry of the tool manifest.
#[derive(Debug)]
pub struct ToolSpec {
    pub name: &'static str,
    pub description: &'static str,
    pub schema: Json,
}

/// Whether a manifest entry is that of a tool.
pub open spec fn describes(spec: ToolSpec, t: ToolName) -> bool {
    &&& spec.name@ == tool_text(t)
    &&& spec.description@ == tool_description(t)
    &&& spec.schema@ == input_schema(tool_params(t))
}

/// The tool manifest: one entry for each tool, in order.
pub fn tool_specs() -> (r: Vec<ToolSpec>)
    ensures
        r@.len() == all_tools().len(),
        forall|i: int| 0 <= i < r@.len() ==> describes(#[trigger] r@[i], all_tools()[i]),
{
    let tools = ToolName::all();
    let mut r: Vec<ToolSpec> = Vec::new();
    let mut i: usize = 0;
    while i < tools.len()
        invariant
            i <= tools@.len(),
            tools@ == all_tools(),
            r@.len() == i,
            forall|j: int| 0 <= j < i ==> describes(#[trigger] r@[j], all_tools()[j]),
        decreases tools@.len() - i,
    {
        let t = tools[i];
        r.push(
            ToolSpec {
                name: t.as_str(),
                description: t.description(),
                schema: input_schema_json(&t.params()),
            },
        );
        i += 1;
    }
    r
}

/// The operation of the shared service that a tool call runs.
#[allow(inconsistent_fields)]
#[derive(Debug)]
pub enum ToolCall {
    SessionList,
    /// Create a session, then rename it where a name is given.
    SessionCreate { session_id: Option<String>, rename: Option<String> },
    SessionRename { id: String, name: String },
    SessionDelete { id: String },
    SessionSnapshot { session_id: String },
    SessionMessages { session_id: String, before_entry_id: Option<String>, limit: u32 },
    GraphList { session_id: String },
    GraphClear { session_id: Option<String>, keep: u64 },
    GraphCancel { run_id: String, reason: String },
    GraphRetry { run_id: String, node_id: Option<String> },
    GraphSkip { run_id: String, node_id: String },
    NodeOutput { run_id: String, node_id: String, offset: u64 },
    Read { path: String, offset: Option<u64>, limit: Option<u64> },
    Write { path: String, content: String },
    /// Without a range of lines, the whole file is looked at.
    Edit {
        path: String,
        old_text: String,
        new_text: String,
        replace_all: bool,
        range: Option<(u64, u64)>,
    },
    Exec { command: String, cwd: Option<String>, timeout_ms: Option<u64> },
    ListDir { path: String, limit: Option<u64> },
    Grep {
        path: String,
        pattern: String,
        glob_filter: Option<String>,
        case_insensitive: bool,
        output_mode: Option<String>,
        max_results: Option<u64>,
    },
    Find { path: String, pattern: String, limit: Option<u64> },
    MemorySave {
        name: String,
        content: String,
        description: Option<String>,
        memory_type: Option<String>,
    },
    MemoryList,
    MemoryRead { name: String },
    MemoryForget { name: String },
    SkillInstall { source: String, confirm: bool, overwrite: bool },
    GetConfig,
    SetConfig { config: Json },
    GetPathContext,
    SetSkillDirs { dirs: Vec<String> },
    SaveDagRun { session_id: String, run_id: String, snapshot: String },
    LoadDagRuns { session_id: String, run_id: Option<String> },
}

/// The content of a `ToolCall`.
#[allow(inconsistent_fields)]
pub enum ToolCallView {
    SessionList,
    SessionCreate { session_id: Option<Seq<char>>, rename: Option<Seq<char>> },
    SessionRename { id: Seq<char>, name: Seq<char> },
    SessionDelete { id: Seq<char> },
    SessionSnapshot { session_id: Seq<char> },
    SessionMessages { session_id: Seq<char>, before_entry_id: Option<Seq<char>>, limit: nat },
    GraphList { session_id: Seq<char> },
    GraphClear { session_id: Option<Seq<char>>, keep: nat },
    GraphCancel { run_id: Seq<char>, reason: Seq<char> },
    GraphRetry { run_id: Seq<char>, node_id: Option<Seq<char>> },
    GraphSkip { run_id: Seq<char>, node_id: Seq<char> },
    NodeOutput { run_id: Seq<char>, node_id: Seq<char>, offset: nat },
    Read { path: Seq<char>, offset: Option<nat>, limit: Option<nat> },
    Write { path: Seq<char>, content: Seq<char> },
    Edit {
        path: Seq<char>,
        old_text: Seq<char>,
        new_text: Seq<char>,
        replace_all: bool,
        range: Option<(u64, u64)>,
    },
    Exec { command: Seq<char>, cwd: Option<Seq<char>>, timeout_ms: Option<nat> },
    ListDir { path: Seq<char>, limit: Option<nat> },
    Grep {
        path: Seq<char>,
        pattern: Seq<char>,
        glob_filter: Option<Seq<char>>,
        case_insensitive: bool,
        output_mode: Option<Seq<char>>,
        max_results: Option<nat>,
    },
    Find { path: Seq<char>, pattern: Seq<char>, limit: Option<nat> },
    MemorySave {
        name: Seq<char>,
        content: Seq<char>,
        description: Option<Seq<char>>,
        memory_type: Option<Seq<char>>,
    },
    MemoryList,
    MemoryRead { name: Seq<char> },
    MemoryForget { name: Seq<char> },
    SkillInstall { source: Seq<char>, confirm: bool, overwrite: bool },
    GetConfig,
    SetConfig { config: JsonView },
    GetPathContext,
    SetSkillDirs { dirs: Seq<Seq<char>> },
    SaveDagRun { session_id: Seq<char>, run_id: Seq<char>, snapshot: Seq<char> },
    LoadDagRuns { session_id: Seq<char>, run_id: Option<Seq<char>> },
}

pub open spec fn opt_nat(o: Option<u64>) -> Option<nat> {
    match o {
        Some(n) => Some(n as nat),
        None => None,
    }
}

impl View for ToolCall {
    type V = ToolCallView;

    open spec fn view(&self) -> ToolCallView {
        match *self {
            ToolCall::SessionList => ToolCallView::SessionList,
            ToolCall::SessionCreate { session_id, rename } => ToolCallView::SessionCreate {
                session_id: opt_text(session_id),
                rename: opt_text(rename),
            },
            ToolCall::SessionRename { id, name } => ToolCallView::SessionRename {
                id: id@,
                name: name@,
            },
            ToolCall::SessionDelete { id } => ToolCallView::SessionDelete { id: id@ },
            ToolCall::SessionSnapshot { session_id } => ToolCallView::SessionSnapshot {
                session_id: session_id@,
            },
            ToolCall::SessionMessages { session_id, before_entry_id, limit } =>
                ToolCallView::SessionMessages {
                session_id: session_id@,
                before_entry_id: opt_text(before_entry_id),
                limit: limit as nat,
            },
            ToolCall::GraphList { session_id } => ToolCallView::GraphList {
                session_id: session_id@,
            },
            ToolCall::GraphClear { session_id, keep } => ToolCallView::GraphClear {
                session_id: opt_text(session_id),
                keep: keep as nat,
            },
            ToolCall::GraphCancel { run_id, reason } => ToolCallView::GraphCancel {
                run_id: run_id@,
                reason: reason@,
            },
            ToolCall::GraphRetry { run_id, node_id } => ToolCallView::GraphRetry {
                run_id: run_id@,
                node_id: opt_text(node_id),
            },
            ToolCall::GraphSkip { run_id, node_id } => ToolCallView::GraphSkip {
                run_id: run_id@,
                node_id: node_id@,
            },
            ToolCall::NodeOutput { run_id, node_id, offset } => ToolCallView::NodeOutput {
                run_id: run_id@,
                node_id: node_id@,
                offset: offset as nat,
            },
            ToolCall::Read { path, offset, limit } => ToolCallView::Read {
                path: path@,
                offset: opt_nat(offset),
                limit: opt_nat(limit),
            },
            ToolCall::Write { path, content } => ToolCallView::Write {
                path: path@,
                content: content@,
            },
            ToolCall::Edit { path, old_text, new_text, replace_all, range } => ToolCallView::Edit {
                path: path@,
                old_text: old_text@,
                new_text: new_text@,
                replace_all,
                range,
            },
            ToolCall::Exec { command, cwd, timeout_ms } => ToolCallView::Exec {
                command: command@,
                cwd: opt_text(cwd),
                timeout_ms: opt_nat(timeout_ms),
            },
            ToolCall::ListDir { path, limit } => ToolCallView::ListDir {
                path: path@,
                limit: opt_nat(limit),
            },
            ToolCall::Grep {
                path,
                pattern,
                glob_filter,
                case_insensitive,
                output_mode,
                max_results,
            } => ToolCallView::Grep {
                path: path@,
                pattern: pattern@,
                glob_filter: opt_text(glob_filter),
                case_insensitive,
                output_mode: opt_text(output_mode),
                max_results: opt_nat(max_results),
            },
            ToolCall::Find { path, pattern, limit } => ToolCallView::Find {
                path: path@,
                pattern: pattern@,
                limit: opt_nat(limit),
            },
            ToolCall::MemorySave { name, content, description, memory_type } =>
                ToolCallView::MemorySave {
                name: name@,
                content: content@,
                description: opt_text(description),
                memory_type: opt_text(memory_type),
            },
            ToolCall::MemoryList => ToolCallView::MemoryList,
            ToolCall::MemoryRead { name } => ToolCallView::MemoryRead { name: name@ },
            ToolCall::MemoryForget { name } => ToolCallView::MemoryForget { name: name@ },
            ToolCall::SkillInstall { source, confirm, overwrite } => ToolCallView::SkillInstall {
                source: source@,
                confirm,
                overwrite,
            },
            ToolCall::GetConfig => ToolCallView::GetConfig,
            ToolCall::SetConfig { config } => ToolCallView::SetConfig { config: config@ },
            ToolCall::GetPathContext => ToolCallView::GetPathContext,
            ToolCall::SetSkillDirs { dirs } => ToolCallView::SetSkillDirs { dirs: texts(dirs@) },
            ToolCall::SaveDagRun { session_id, run_id, snapshot } => ToolCallView::SaveDagRun {
                session_id: session_id@,
                run_id: run_id@,
                snapshot: snapshot@,
            },
            ToolCall::LoadDagRuns { session_id, run_id } => ToolCallView::LoadDagRuns {
                session_id: session_id@,
                run_id: opt_text(run_id),
            },
        }
    }
}

/// The refusal of a call without a usable parameter `key`.
pub open spec fn missing(key: Seq<char>) -> Seq<char> {
    "missing param `"@ + key + "`"@
}

/// The string parameter `key`, or the refusal of a call without it.
pub open spec fn arg(args: JsonView, key: Seq<char>) -> Result<Seq<char>, Seq<char>> {
    match string_member(args, key) {
        Some(s) => Ok(s),
        None => Err(missing(key)),
    }
}

/// Two string parameters, or the refusal for the first that is missing.
pub open spec fn arg2(args: JsonView, a: Seq<char>, b: Seq<char>) -> Result<
    (Seq<char>, Seq<char>),
    Seq<char>,
> {
    match (arg(args, a), arg(args, b)) {
        (Err(e), _) => Err(e),
        (Ok(_), Err(e)) => Err(e),
        (Ok(x), Ok(y)) => Ok((x, y)),
    }
}

/// Three string parameters, or the refusal for the first that is missing.
pub open spec fn arg3(args: JsonView, a: Seq<char>, b: Seq<char>, c: Seq<char>) -> Result<
    (Seq<char>, Seq<char>, Seq<char>),
    Seq<char>,
> {
    match (arg2(args, a, b), arg(args, c)) {
        (Err(e), _) => Err(e),
        (Ok(_), Err(e)) => Err(e),
        (Ok(x), Ok(y)) => Ok((x.0, x.1, y)),
    }
}

/// The string items of a list, in order.
pub open spec fn string_items(v: Seq<JsonView>) -> Seq<Seq<char>>
    decreases v.len(),
{
    if v.len() == 0 {
        Seq::empty()
    } else {
        match string_in(v.last()) {
            Some(s) => string_items(v.drop_last()).push(s),
            None => string_items(v.drop_last()),
        }
    }
}

/// A number of the arguments, or a default.
pub open spec fn uint_or(args: JsonView, key: Seq<char>, default: nat) -> nat {
    match uint_member(args, key) {
        Some(n) => n,
        None => default,
    }
}

/// The plan of a call of tool `t`, or the message that the call fails with.
pub open spec fn planned(t: ToolName, args: JsonView) -> Result<ToolCallView, Seq<char>> {
    match t {
        ToolName::SessionList => Ok(ToolCallView::SessionList),
        ToolName::SessionCreate => Ok(
            ToolCallView::SessionCreate {
                session_id: string_member(args, "session_id"@),
                rename: match string_member(args, "name"@) {
                    Some(name) => if trimmed(name).len() == 0 {
                        None
                    } else {
                        Some(name)
                    },
                    None => None,
                },
            },
        ),
        ToolName::SessionRename => match arg2(args, "id"@, "name"@) {
            Ok(p) => Ok(ToolCallView::SessionRename { id: p.0, name: p.1 }),
            Err(e) => Err(e),
        },
        ToolName::SessionDelete => match arg(args, "id"@) {
            Ok(id) => Ok(ToolCallView::SessionDelete { id }),
            Err(e) => Err(e),
        },
        ToolName::SessionGetSnapshot => Ok(
            ToolCallView::SessionSnapshot {
                session_id: match string_member(args, "session_id"@) {
                    Some(s) => s,
                    None => Seq::empty(),
                },
            },
        ),
        ToolName::SessionListMessages => match arg(args, "session_id"@) {
            Ok(session_id) => Ok(
                ToolCallView::SessionMessages {
                    session_id,
                    before_entry_id: string_member(args, "before_entry_id"@),
                    limit: {
                        let n = uint_or(args, "limit"@, 50);
                        if n <= u32::MAX {
                            n
                        } else {
                            u32::MAX as nat
                        }
                    },
                },
            ),
            Err(e) => Err(e),
        },
        ToolName::GraphList => match arg(args, "session_id"@) {
            Ok(session_id) => Ok(ToolCallView::GraphList { session_id }),
            Err(e) => Err(e),
        },
        ToolName::GraphClear => Ok(
            ToolCallView::GraphClear {
                session_id: string_member(args, "session_id"@),
                keep: uint_or(args, "keep"@, 0),
            },
        ),
        ToolName::GraphCancel => match arg(args, "run_id"@) {
            Ok(run_id) => Ok(ToolCallView::GraphCancel { run_id, reason: "cancelled via mcp"@ }),
            Err(e) => Err(e),
        },
        ToolName::GraphRetry => match arg(args, "run_id"@) {
            Ok(run_id) => Ok(
                ToolCallView::GraphRetry { run_id, node_id: string_member(args, "node_id"@) },
            ),
            Err(e) => Err(e),
        },
        ToolName::GraphSkip => match arg2(args, "run_id"@, "node_id"@) {
            Ok(p) => Ok(ToolCallView::GraphSkip { run_id: p.0, node_id: p.1 }),
            Err(e) => Err(e),
        },
        ToolName::GetNodeOutput => match arg2(args, "run_id"@, "node_id"@) {
            Ok(p) => Ok(
                ToolCallView::NodeOutput {
                    run_id: p.0,
                    node_id: p.1,
                    offset: uint_or(args, "offset"@, 0),
                },
            ),
            Err(e) => Err(e),
        },
        ToolName::ToolRead => match arg(args, "path"@) {
            Ok(path) => Ok(
                ToolCallView::Read {
                    path,
                    offset: uint_member(args, "offset"@),
                    limit: uint_member(args, "limit"@),
                },
            ),
            Err(e) => Err(e),
        },
        ToolName::ToolWrite => match arg2(args, "path"@, "content"@) {
            Ok(p) => Ok(ToolCallView::Write { path: p.0, content: p.1 }),
            Err(e) => Err(e),
        },
        ToolName::ToolEdit => match arg3(args, "path"@, "old_text"@, "new_text"@) {
            Ok(p) => Ok(
                ToolCallView::Edit {
                    path: p.0,
                    old_text: p.1,
                    new_text: p.2,
                    replace_all: false,
                    range: None,
                },
            ),
            Err(e) => Err(e),
        },
        ToolName::ToolExec => match arg(args, "command"@) {
            Ok(command) => Ok(ToolCallView::Exec { command, cwd: None, timeout_ms: None }),
            Err(e) => Err(e),
        },
        ToolName::ToolListDir => match arg(args, "path"@) {
            Ok(path) => Ok(ToolCallView::ListDir { path, limit: None }),
            Err(e) => Err(e),
        },
        ToolName::ToolGrep => match arg2(args, "path"@, "pattern"@) {
            Ok(p) => Ok(
                ToolCallView::Grep {
                    path: p.0,
                    pattern: p.1,
                    glob_filter: None,
                    case_insensitive: false,
                    output_mode: None,
                    max_results: None,
                },
            ),
            Err(e) => Err(e),
        },
        ToolName::ToolFind => match arg2(args, "path"@, "pattern"@) {
            Ok(p) => Ok(ToolCallView::Find { path: p.0, pattern: p.1, limit: None }),
            Err(e) => Err(e),
        },
        ToolName::ToolMemorySave => match arg2(args, "name"@, "content"@) {
            Ok(p) => Ok(
                ToolCallView::MemorySave {
                    name: p.0,
                    content: p.1,
                    description: None,
                    memory_type: None,
                },
            ),
            Err(e) => Err(e),
        },
        ToolName::ToolMemoryList => Ok(ToolCallView::MemoryList),
        ToolName::ToolMemoryRead => match arg(args, "name"@) {
            Ok(name) => Ok(ToolCallView::MemoryRead { name }),
            Err(e) => Err(e),
        },
        ToolName::ToolMemoryForget => match arg(args, "name"@) {
            Ok(name) => Ok(ToolCallView::MemoryForget { name }),
            Err(e) => Err(e),
        },
        ToolName::ToolSkillInstall => match arg(args, "source"@) {
            Ok(source) => Ok(
                ToolCallView::SkillInstall {
                    source,
                    confirm: bool_member(args, "confirm"@) == Some(true),
                    overwrite: false,
                },
            ),
            Err(e) => Err(e),
        },
        ToolName::SettingsGetConfig => Ok(ToolCallView::GetConfig),
        ToolName::SettingsSetConfig => Ok(ToolCallView::SetConfig { config: args }),
        ToolName::SettingsGetPathContext => Ok(ToolCallView::GetPathContext),
        ToolName::SettingsSetSkillDirs => match array_member(args, "dirs"@) {
            Some(items) => Ok(ToolCallView::SetSkillDirs { dirs: string_items(items) }),
            None => Err(missing("dirs"@)),
        },
        ToolName::StorageSaveDagRun => match arg3(
            args,
            "session_id"@,
            "run_id"@,
            "snapshot"@,
        ) {
            Ok(p) => Ok(
                ToolCallView::SaveDagRun { session_id: p.0, run_id: p.1, snapshot: p.2 },
            ),
            Err(e) => Err(e),
        },
        ToolName::StorageLoadDagRuns => match arg(args, "session_id"@) {
            Ok(session_id) => Ok(
                ToolCallView::LoadDagRuns { session_id, run_id: string_member(args, "run_id"@) },
            ),
            Err(e) => Err(e),
        },
    }
}

pub open spec fn text_result(r: Result<String, String>) -> Result<Seq<char>, Seq<char>> {
    match r {
        Ok(s) => Ok(s@),
        Err(e) => Err(e@),
    }
}

/// The string parameter `key`.
fn arg_str(args: &Json, key: &str) -> (r: Result<String, String>)
    ensures
        text_result(r) == arg(args@, key@),
{
    match args.text_member(key) {
        Some(s) => Ok(s),
        None => {
            let mut e = owned("missing param `");
            e.push_str(key);
            e.push_str("`");
            Err(e)
        },
    }
}

fn two_args(args: &Json, a: &str, b: &str) -> (r: Result<(String, String), String>)
    ensures
        r matches Ok(p) ==> arg2(args@, a@, b@) == Ok::<(Seq<char>, Seq<char>), Seq<char>>(
            (p.0@, p.1@),
        ),
        r matches Err(e) ==> arg2(args@, a@, b@) == Err::<(Seq<char>, Seq<char>), Seq<char>>(e@),
{
    let x = arg_str(args, a)?;
    let y = arg_str(args, b)?;
    Ok((x, y))
}

fn three_args(args: &Json, a: &str, b: &str, c: &str) -> (r: Result<
    (String, String, String),
    String,
>)
    ensures
        r matches Ok(p) ==> arg3(args@, a@, b@, c@) == Ok::<
            (Seq<char>, Seq<char>, Seq<char>),
            Seq<char>,
        >((p.0@, p.1@, p.2@)),
        r matches Err(e) ==> arg3(args@, a@, b@, c@) == Err::<
            (Seq<char>, Seq<char>, Seq<char>),
            Seq<char>,
        >(e@),
{
    let (x, y) = two_args(args, a, b)?;
    let z = arg_str(args, c)?;
    Ok((x, y, z))
}

fn strings_of(items: &Vec<Json>) -> (r: Vec<String>)
    ensures
        texts(r@) == string_items(items_view(items@)),
{
    let mut r: Vec<String> = Vec::new();
    let mut i: usize = 0;
    let ghost all = items_view(items@);
    assert(texts(r@) =~= string_items(all.take(0)));
    while i < items.len()
        invariant
            i <= items@.len(),
            all == items_view(items@),
            texts(r@) == string_items(all.take(i as int)),
        decreases items@.len() - i,
    {
        let ghost before = r@;
        assert(all.take(i + 1).drop_last() =~= all.take(i as int));
        assert(all.take(i + 1).last() == items@[i as int]@);
        if let Some(s) = items[i].as_text() {
            r.push(s.clone());
            assert(texts(r@) =~= texts(before).push(s@));
        }
        i += 1;
    }
    assert(all.take(i as int) =~= all);
    r
}

fn uint_arg(args: &Json, key: &str, default: u64) -> (r: u64)
    ensures
        r == uint_or(args@, key@, default as nat),
{
    match args.uint_field(key) {
        Some(n) => n,
        None => default,
    }
}

pub open spec fn plan_view(r: Result<ToolCall, String>) -> Result<ToolCallView, Seq<char>> {
    match r {
        Ok(c) => Ok(c@),
        Err(e) => Err(e@),
    }
}

/// The plan of a call of tool `t`.
pub fn plan_tool(t: ToolName, args: &Json) -> (r: Result<ToolCall, String>)
    ensures
        plan_view(r) == planned(t, args@),
{
    let call = match t {
        ToolName::SessionList => ToolCall::SessionList,
        ToolName::SessionCreate => {
            let session_id = args.text_member("session_id");
            let rename = match args.text_member("name") {
                Some(name) => if is_blank(name.as_str()) {
                    None
                } else {
                    Some(name)
                },
                None => None,
            };
            ToolCall::SessionCreate { session_id, rename }
        },
        ToolName::SessionRename => {
            let (id, name) = two_args(args, "id", "name")?;
            ToolCall::SessionRename { id, name }
        },
        ToolName::SessionDelete => ToolCall::SessionDelete { id: arg_str(args, "id")? },
        ToolName::SessionGetSnapshot => ToolCall::SessionSnapshot {
            session_id: match args.text_member("session_id") {
                Some(s) => s,
                None => String::new(),
            },
        },
        ToolName::SessionListMessages => {
            let session_id = arg_str(args, "session_id")?;
            let n: u64 = uint_arg(args, "limit", 50);
            let limit: u32 = if n <= u32::MAX as u64 {
                n as u32
            } else {
                u32::MAX
            };
            ToolCall::SessionMessages {
                session_id,
                before_entry_id: args.text_member("before_entry_id"),
                limit,
            }
        },
        ToolName::GraphList => ToolCall::GraphList { session_id: arg_str(args, "session_id")? },
        ToolName::GraphClear => ToolCall::GraphClear {
            session_id: args.text_member("session_id"),
            keep: uint_arg(args, "keep", 0),
        },
        ToolName::GraphCancel => ToolCall::GraphCancel {
            run_id: arg_str(args, "run_id")?,
            reason: owned("cancelled via mcp"),
        },
        ToolName::GraphRetry => ToolCall::GraphRetry {
            run_id: arg_str(args, "run_id")?,
            node_id: args.text_member("node_id"),
        },
        ToolName::GraphSkip => {
            let (run_id, node_id) = two_args(args, "run_id", "node_id")?;
            ToolCall::GraphSkip { run_id, node_id }
        },
        ToolName::GetNodeOutput => {
            let (run_id, node_id) = two_args(args, "run_id", "node_id")?;
            ToolCall::NodeOutput { run_id, node_id, offset: uint_arg(args, "offset", 0) }
        },
        ToolName::ToolRead => ToolCall::Read {
            path: arg_str(args, "path")?,
            offset: args.uint_field("offset"),
            limit: args.uint_field("limit"),
        },
        ToolName::ToolWrite => {
            let (path, content) = two_args(args, "path", "content")?;
            ToolCall::Write { path, content }
        },
        ToolName::ToolEdit => {
            let (path, old_text, new_text) = three_args(args, "path", "old_text", "new_text")?;
            ToolCall::Edit { path, old_text, new_text, replace_all: false, range: None }
        },
        ToolName::ToolExec => ToolCall::Exec {
            command: arg_str(args, "command")?,
            cwd: None,
            timeout_ms: None,
        },
        ToolName::ToolListDir => ToolCall::ListDir { path: arg_str(args, "path")?, limit: None },
        ToolName::ToolGrep => {
            let (path, pattern) = two_args(args, "path", "pattern")?;
            ToolCall::Grep {
                path,
                pattern,
                glob_filter: None,
                case_insensitive: false,
                output_mode: None,
                max_results: None,
            }
        },
        ToolName::ToolFind => {
            let (path, pattern) = two_args(args, "path", "pattern")?;
            ToolCall::Find { path, pattern, limit: None }
        },
        ToolName::ToolMemorySave => {
            let (name, content) = two_args(args, "name", "content")?;
            ToolCall::MemorySave { name, content, description: None, memory_type: None }
        },
        ToolName::ToolMemoryList => ToolCall::MemoryList,
        ToolName::ToolMemoryRead => ToolCall::MemoryRead { name: arg_str(args, "name")? },
        ToolName::ToolMemoryForget => ToolCall::MemoryForget { name: arg_str(args, "name")? },
        ToolName::ToolSkillInstall => ToolCall::SkillInstall {
            source: arg_str(args, "source")?,
            confirm: matches!(args.bool_field("confirm"), Some(true)),
            overwrite: false,
        },
        ToolName::SettingsGetConfig => ToolCall::GetConfig,
        ToolName::SettingsSetConfig => ToolCall::SetConfig { config: args.copy() },
        ToolName::SettingsGetPathContext => ToolCall::GetPathContext,
        ToolName::SettingsSetSkillDirs => {
            let items = match args.get("dirs") {
                Some(v) => v.as_items(),
                None => None,
            };
            match items {
                Some(items) => ToolCall::SetSkillDirs { dirs: strings_of(items) },
                None => {
                    let mut e = owned("missing param `");
                    e.push_str("dirs");
                    e.push_str("`");
                    return Err(e);
                },
            }
        },
        ToolName::StorageSaveDagRun => {
            let (session_id, run_id, snapshot) = three_args(
                args,
                "session_id",
                "run_id",
                "snapshot",
            )?;
            ToolCall::SaveDagRun { session_id, run_id, snapshot }
        },
        ToolName::StorageLoadDagRuns => ToolCall::LoadDagRuns {
            session_id: arg_str(args, "session_id")?,
            run_id: args.text_member("run_id"),
        },
    };
    Ok(call)
}

/// The message for a tool that is not in the manifest.
pub open spec fn not_found(name: Seq<char>) -> Seq<char> {
    "tool not found: "@ + name
}

fn not_found_message(name: &str) -> (r: String)
    ensures
        r@ == not_found(name@),
{
    let mut e = owned("tool not found: ");
    e.push_str(name);
    e
}

/// The plan that a tool name and its arguments make, or the message that the call fails
/// with.
pub fn execute(name: &str, args: &Json) -> (r: Result<ToolCall, String>)
    ensures
        plan_view(r) == (match tool_named(name@) {
            Some(t) => planned(t, args@),
            None => Err(not_found(name@)),
        }),
{
    match ToolName::named(name) {
        Some(t) => plan_tool(t, args),
        None => Err(not_found_message(name)),
    }
}

/// What a `tools/call` request leads to.
#[derive(Debug)]
pub enum CallPlan {
    /// The protocol error for an unknown tool.
    NotFound(String),
    /// A tool error, sent as the text of an error result.
    Failed(String),
    /// The tool that was called, and the operation to run.
    Run(ToolName, ToolCall),
}

/// What a `tools/call` request leads to: an unknown tool is a protocol error, a bad
/// argument a tool error. A request without arguments has no members to read.
pub fn call_tool(name: &str, arguments: Option<&Json>) -> (r: CallPlan)
    ensures
        ({
            let args = match arguments {
                Some(a) => a@,
                None => JsonView::Object(Map::empty()),
            };
            match tool_named(name@) {
                None => r matches CallPlan::NotFound(e) && e@ == not_found(name@),
                Some(t) => match planned(t, args) {
                    Ok(c) => r matches CallPlan::Run(tool, call) && tool == t && call@ == c,
                    Err(m) => r matches CallPlan::Failed(e) && e@ == m,
                },
            }
        }),
{
    let empty = Json::object();
    let args = match arguments {
        Some(a) => a,
        None => &empty,
    };
    match ToolName::named(name) {
        None => CallPlan::NotFound(not_found_message(name)),
        Some(t) => match plan_tool(t, args) {
            Ok(call) => CallPlan::Run(t, call),
            Err(e) => CallPlan::Failed(e),
        },
    }
}

/// The text of every tool name, character by character.
proof fn lemma_name_texts()
    ensures
        "session_list"@.len() == 12,
        "session_create"@.len() == 14,
        "session_rename"@.len() == 14,
        "session_delete"@.len() == 14,
        "session_get_snapshot"@.len() == 20,
        "session_list_messages"@.len() == 21,
        "graph_list"@.len() == 10,
        "graph_clear"@.len() == 11,
        "graph_cancel"@.len() == 12,
        "graph_retry"@.len() == 11,
        "graph_skip"@.len() == 10,
        "get_node_output"@.len() == 15,
        "tool_read"@.len() == 9,
        "tool_write"@.len() == 10,
        "tool_edit"@.len() == 9,
        "tool_exec"@.len() == 9,
        "tool_list_dir"@.len() == 13,
        "tool_grep"@.len() == 9,
        "tool_find"@.len() == 9,
        "tool_memory_save"@.len() == 16,
        "tool_memory_list"@.len() == 16,
        "tool_memory_read"@.len() == 16,
        "tool_memory_forget"@.len() == 18,
        "tool_skill_install"@.len() == 18,
        "settings_get_config"@.len() == 19,
        "settings_set_config"@.len() == 19,
        "settings_get_path_context"@.len() == 25,
        "settings_set_skill_dirs"@.len() == 23,
        "storage_save_dag_run"@.len() == 20,
        "storage_load_dag_runs"@.len() == 21,
        "session_create"@ != "session_rename"@,
        "session_create"@ != "session_delete"@,
        "session_rename"@ != "session_delete"@,
        "session_list"@ != "graph_cancel"@,
        "graph_clear"@ != "graph_retry"@,
        "graph_list"@ != "graph_skip"@,
        "graph_list"@ != "tool_write"@,
        "graph_skip"@ != "tool_write"@,
        "tool_read"@ != "tool_edit"@,
        "tool_read"@ != "tool_exec"@,
        "tool_edit"@ != "tool_exec"@,
        "tool_read"@ != "tool_grep"@,
        "tool_edit"@ != "tool_grep"@,
        "tool_exec"@ != "tool_grep"@,
        "tool_read"@ != "tool_find"@,
        "tool_edit"@ != "tool_find"@,
        "tool_exec"@ != "tool_find"@,
        "tool_grep"@ != "tool_find"@,
        "tool_memory_save"@ != "tool_memory_list"@,
        "tool_memory_save"@ != "tool_memory_read"@,
        "tool_memory_list"@ != "tool_memory_read"@,
        "tool_memory_forget"@ != "tool_skill_install"@,
        "settings_get_config"@ != "settings_set_config"@,
        "session_get_snapshot"@ != "storage_save_dag_run"@,
        "session_list_messages"@ != "storage_load_dag_runs"@,
{
    reveal_strlit("session_list");
    reveal_strlit("session_create");
    reveal_strlit("session_rename");
    reveal_strlit("session_delete");
    reveal_strlit("session_get_snapshot");
    reveal_strlit("session_list_messages");
    reveal_strlit("graph_list");
    reveal_strlit("graph_clear");
    reveal_strlit("graph_cancel");
    reveal_strlit("graph_retry");
    reveal_strlit("graph_skip");
    reveal_strlit("get_node_output");
    reveal_strlit("tool_read");
    reveal_strlit("tool_write");
    reveal_strlit("tool_edit");
    reveal_strlit("tool_exec");
    reveal_strlit("tool_list_dir");
    reveal_strlit("tool_grep");
    reveal_strlit("tool_find");
    reveal_strlit("tool_memory_save");
    reveal_strlit("tool_memory_list");
    reveal_strlit("tool_memory_read");
    reveal_strlit("tool_memory_forget");
    reveal_strlit("tool_skill_install");
    reveal_strlit("settings_get_config");
    reveal_strlit("settings_set_config");
    reveal_strlit("settings_get_path_context");
    reveal_strlit("settings_set_skill_dirs");
    reveal_strlit("storage_save_dag_run");
    reveal_strlit("storage_load_dag_runs");
    assert("session_create"@[8] != "session_rename"@[8]);
    assert("session_create"@[8] != "session_delete"@[8]);
    assert("session_rename"@[8] != "session_delete"@[8]);
    assert("session_list"@[0] != "graph_cancel"@[0]);
    assert("graph_clear"@[6] != "graph_retry"@[6]);
    assert("graph_list"@[6] != "graph_skip"@[6]);
    assert("graph_list"@[0] != "tool_write"@[0]);
    assert("graph_skip"@[0] != "tool_write"@[0]);
    assert("tool_read"@[5] != "tool_edit"@[5]);
    assert("tool_read"@[5] != "tool_exec"@[5]);
    assert("tool_edit"@[6] != "tool_exec"@[6]);
    assert("tool_read"@[5] != "tool_grep"@[5]);
    assert("tool_edit"@[5] != "tool_grep"@[5]);
    assert("tool_exec"@[5] != "tool_grep"@[5]);
    assert("tool_read"@[5] != "tool_find"@[5]);
    assert("tool_edit"@[5] != "tool_find"@[5]);
    assert("tool_exec"@[5] != "tool_find"@[5]);
    assert("tool_grep"@[5] != "tool_find"@[5]);
    assert("tool_memory_save"@[12] != "tool_memory_list"@[12]);
    assert("tool_memory_save"@[12] != "tool_memory_read"@[12]);
    assert("tool_memory_list"@[12] != "tool_memory_read"@[12]);
    assert("tool_memory_forget"@[5] != "tool_skill_install"@[5]);
    assert("settings_get_config"@[9] != "settings_set_config"@[9]);
    assert("session_get_snapshot"@[1] != "storage_save_dag_run"@[1]);
    assert("session_list_messages"@[1] != "storage_load_dag_runs"@[1]);
}

/// Every tool is found under its own name, so no two tools share one.
pub proof fn law_tool_names_round_trip(t: ToolName)
    ensures
        tool_named(tool_text(t)) == Some(t),
{
    lemma_name_texts();
}

/// A name denotes a tool exactly when some entry of the manifest bears it, and no two
/// entries bear the same name.
pub proof fn law_manifest_names_the_tools(name: Seq<char>)
    ensures
        tool_named(name) is Some <==> exists|i: int|
            0 <= i < all_tools().len() && tool_text(#[trigger] all_tools()[i]) == name,
        forall|i: int, j: int|
            0 <= i < j < all_tools().len() ==> tool_text(#[trigger] all_tools()[i]) != tool_text(
                #[trigger] all_tools()[j],
            ),
{
    let all = all_tools();
    if let Some(t) = tool_named(name) {
        lemma_named(name);
        lemma_all_tools(t);
        let i = tool_index(t);
        assert(tool_text(all[i]) == name);
    }
    assert forall|i: int| 0 <= i < all.len() implies tool_named(tool_text(#[trigger] all[i]))
        == Some(all[i]) by {
        law_tool_names_round_trip(all[i]);
    }
    assert forall|i: int| 0 <= i < all.len() implies tool_index(#[trigger] all[i]) == i by {}
    assert forall|i: int, j: int| 0 <= i < j < all.len() implies tool_text(#[trigger] all[i])
        != tool_text(#[trigger] all[j]) by {
        assert(tool_index(all[i]) != tool_index(all[j]));
    }
}

/// The place of a tool in the manifest.
pub open spec fn tool_index(t: ToolName) -> int {
    match t {
        ToolName::SessionList => 0,
        ToolName::SessionCreate => 1,
        ToolName::SessionRename => 2,
        ToolName::SessionDelete => 3,
        ToolName::SessionGetSnapshot => 4,
        ToolName::SessionListMessages => 5,
        ToolName::GraphList => 6,
        ToolName::GraphClear => 7,
        ToolName::GraphCancel => 8,
        ToolName::GraphRetry => 9,
        ToolName::GraphSkip => 10,
        ToolName::GetNodeOutput => 11,
        ToolName::ToolRead => 12,
        ToolName::ToolWrite => 13,
        ToolName::ToolEdit => 14,
        ToolName::ToolExec => 15,
        ToolName::ToolListDir => 16,
        ToolName::ToolGrep => 17,
        ToolName::ToolFind => 18,
        ToolName::ToolMemorySave => 19,
        ToolName::ToolMemoryList => 20,
        ToolName::ToolMemoryRead => 21,
        ToolName::ToolMemoryForget => 22,
        ToolName::ToolSkillInstall => 23,
        ToolName::SettingsGetConfig => 24,
        ToolName::SettingsSetConfig => 25,
        ToolName::SettingsGetPathContext => 26,
        ToolName::SettingsSetSkillDirs => 27,
        ToolName::StorageSaveDagRun => 28,
        ToolName::StorageLoadDagRuns => 29,
    }
}

proof fn lemma_all_tools(t: ToolName)
    ensures
        0 <= tool_index(t) < all_tools().len(),
        all_tools()[tool_index(t)] == t,
{
}

proof fn lemma_named(name: Seq<char>)
    ensures
        tool_named(name) matches Some(t) ==> tool_text(t) == name,
{
}

/// Whether the arguments hold a parameter in the form that its schema asks for.
pub open spec fn usable(p: ParamView, args: JsonView) -> bool {
    match p.kind {
        ParamKind::Text => string_member(args, p.name) is Some,
        ParamKind::Integer => uint_member(args, p.name) is Some,
        ParamKind::Flag => bool_member(args, p.name) is Some,
        ParamKind::TextList => array_member(args, p.name) is Some,
    }
}

/// A call is planned exactly when every parameter that the manifest requires is there in
/// the form that the schema asks for.
pub proof fn law_manifest_agrees_with_plans(t: ToolName, args: JsonView)
    ensures
        planned(t, args) is Ok <==> forall|i: int|
            0 <= i < tool_params(t).len() && (#[trigger] tool_params(t)[i]).required ==> usable(
                tool_params(t)[i],
                args,
            ),
{
    let ps = tool_params(t);
    if ps.len() > 0 {
        assert(ps[0] == ps[0]);
    }
    if ps.len() > 1 {
        assert(ps[1] == ps[1]);
    }
    if ps.len() > 2 {
        assert(ps[2] == ps[2]);
    }
}

/// A call that fails names a required parameter that cannot be used.
pub proof fn law_failed_plan_names_a_parameter(t: ToolName, args: JsonView)
    ensures
        planned(t, args) matches Err(e) ==> exists|i: int|
            0 <= i < tool_params(t).len() && (#[trigger] tool_params(t)[i]).required && !usable(
                tool_params(t)[i],
                args,
            ) && e == missing(tool_params(t)[i].name),
{
    let ps = tool_params(t);
    if ps.len() > 0 {
        assert(ps[0] == ps[0]);
    }
    if ps.len() > 1 {
        assert(ps[1] == ps[1]);
    }
    if ps.len() > 2 {
        assert(ps[2] == ps[2]);
    }
}

/// The member under which the result of a tool is given back; the other results stand by
/// themselves.
pub open spec fn result_member(t: ToolName) -> Option<Seq<char>> {
    match t {
        ToolName::SessionCreate => Some("session_id"@),
        ToolName::SessionRename | ToolName::GraphCancel | ToolName::SettingsSetConfig
        | ToolName::SettingsSetSkillDirs => Some("accepted"@),
        ToolName::SessionDelete => Some("running_run_ids"@),
        ToolName::GraphClear => Some("removed"@),
        ToolName::GraphRetry => Some("reset_node_ids"@),
        ToolName::GraphSkip => Some("skipped"@),
        _ => None,
    }
}

/// What a tool gives back, from what its operation gave. A session that was renamed and a run
/// that was cancelled are told as accepted, whatever the operation gave.
pub open spec fn tool_result(t: ToolName, value: JsonView) -> JsonView {
    let told = if t == ToolName::SessionRename || t == ToolName::GraphCancel {
        JsonView::Bool(true)
    } else {
        value
    };
    match result_member(t) {
        Some(key) => JsonView::Object(Map::empty().insert(key, told)),
        None => told,
    }
}

/// What a tool gives back, from what its operation gave.
pub fn tool_reply(t: ToolName, value: Json) -> (r: Json)
    ensures
        r@ == tool_result(t, value@),
{
    match t {
        ToolName::SessionCreate => Json::object().with("session_id", value),
        ToolName::SessionRename | ToolName::GraphCancel => Json::object().with(
            "accepted",
            Json::Bool(true),
        ),
        ToolName::SettingsSetConfig | ToolName::SettingsSetSkillDirs => Json::object().with(
            "accepted",
            value,
        ),
        ToolName::SessionDelete => Json::object().with("running_run_ids", value),
        ToolName::GraphClear => Json::object().with("removed", value),
        ToolName::GraphRetry => Json::object().with("reset_node_ids", value),
        ToolName::GraphSkip => Json::object().with("skipped", value),
        _ => value,
    }
}

/// The result of a node output read.
pub fn node_output_reply(
    output: Json,
    offset: u64,
    truncated: bool,
    messages: Json,
    messages_truncated: bool,
) -> (r: Json)
    ensures
        r@ == JsonView::Object(
            Map::empty().insert("output"@, output@).insert("offset"@, JsonView::UInt(offset as nat)).insert(
                "truncated"@,
                JsonView::Bool(truncated),
            ).insert("messages"@, messages@).insert(
                "messages_truncated"@,
                JsonView::Bool(messages_truncated),
            ),
        ),
{
    Json::object().with("output", output).with("offset", Json::UInt(offset)).with(
        "truncated",
        Json::Bool(truncated),
    ).with("messages", messages).with("messages_truncated", Json::Bool(messages_truncated))
}

// What calls are for.

/// Whether arguments are an object that holds a text under a name.
pub open spec fn holds_text(args: JsonView, key: Seq<char>, text: Seq<char>) -> bool {
    args matches JsonView::Object(m) && m.contains_key(key) && m[key] == JsonView::Str(text)
}

/// Whether arguments are an object that holds a number under a name.
pub open spec fn holds_number(args: JsonView, key: Seq<char>, n: nat) -> bool {
    args matches JsonView::Object(m) && m.contains_key(key) && m[key] == JsonView::UInt(n)
}

/// Whether a value is exactly the text that arguments hold under a name, where they hold one.
pub open spec fn is_text_under(args: JsonView, key: Seq<char>, o: Option<Seq<char>>) -> bool {
    forall|s: Seq<char>| #[trigger] holds_text(args, key, s) <==> o == Some(s)
}

/// Whether a value is exactly the number that arguments hold under a name, where they hold one.
pub open spec fn is_number_under(args: JsonView, key: Seq<char>, o: Option<nat>) -> bool {
    forall|n: nat| #[trigger] holds_number(args, key, n) <==> o == Some(n)
}

/// Whether a number is the one that arguments hold under a name, or else a default.
pub open spec fn is_number_or(args: JsonView, key: Seq<char>, n: nat, default: nat) -> bool {
    ||| holds_number(args, key, n)
    ||| n == default && forall|other: nat| !(#[trigger] holds_number(args, key, other))
}

/// A tool plans the operation of its own name, and each value of the operation is the argument
/// of that value's own name: a write goes to the file under `path` and puts the text under
/// `content` there. What a tool does not take from its arguments is fixed.
#[verifier::spinoff_prover]
#[verifier::rlimit(40)]
pub proof fn law_operations_hold_their_own_arguments(
    name: Seq<char>,
    args: JsonView,
    call: ToolCallView,
)
    requires
        tool_named(name) is Some,
        planned(tool_named(name)->0, args) == Ok::<ToolCallView, Seq<char>>(call),
    ensures
        match call {
            ToolCallView::SessionList => name == "session_list"@,
            ToolCallView::SessionCreate { session_id, rename } => {
                &&& name == "session_create"@
                &&& is_text_under(args, "session_id"@, session_id)
                &&& forall|s: Seq<char>|
                    rename == Some(s) <==> #[trigger] holds_text(args, "name"@, s) && trimmed(
                        s,
                    ).len() > 0
            },
            ToolCallView::SessionRename { id, name: given } => {
                &&& name == "session_rename"@
                &&& holds_text(args, "id"@, id)
                &&& holds_text(args, "name"@, given)
            },
            ToolCallView::SessionDelete { id } => {
                &&& name == "session_delete"@
                &&& holds_text(args, "id"@, id)
            },
            ToolCallView::SessionSnapshot { session_id } => {
                &&& name == "session_get_snapshot"@
                &&& holds_text(args, "session_id"@, session_id) || (session_id.len() == 0 && forall|
                    s: Seq<char>,
                | !(#[trigger] holds_text(args, "session_id"@, s)))
            },
            ToolCallView::SessionMessages { session_id, before_entry_id, limit } => {
                &&& name == "session_list_messages"@
                &&& holds_text(args, "session_id"@, session_id)
                &&& is_text_under(args, "before_entry_id"@, before_entry_id)
                &&& limit <= u32::MAX
                &&& limit < u32::MAX ==> is_number_or(args, "limit"@, limit, 50)
                &&& limit == u32::MAX ==> exists|n: nat|
                    n >= u32::MAX && #[trigger] holds_number(args, "limit"@, n)
            },
            ToolCallView::GraphList { session_id } => {
                &&& name == "graph_list"@
                &&& holds_text(args, "session_id"@, session_id)
            },
            ToolCallView::GraphClear { session_id, keep } => {
                &&& name == "graph_clear"@
                &&& is_text_under(args, "session_id"@, session_id)
                &&& is_number_or(args, "keep"@, keep, 0)
            },
            ToolCallView::GraphCancel { run_id, reason } => {
                &&& name == "graph_cancel"@
                &&& holds_text(args, "run_id"@, run_id)
                &&& reason == "cancelled via mcp"@
            },
            ToolCallView::GraphRetry { run_id, node_id } => {
                &&& name == "graph_retry"@
                &&& holds_text(args, "run_id"@, run_id)
                &&& is_text_under(args, "node_id"@, node_id)
            },
            ToolCallView::GraphSkip { run_id, node_id } => {
                &&& name == "graph_skip"@
                &&& holds_text(args, "run_id"@, run_id)
                &&& holds_text(args, "node_id"@, node_id)
            },
            ToolCallView::NodeOutput { run_id, node_id, offset } => {
                &&& name == "get_node_output"@
                &&& holds_text(args, "run_id"@, run_id)
                &&& holds_text(args, "node_id"@, node_id)
                &&& is_number_or(args, "offset"@, offset, 0)
            },
            ToolCallView::Read { path, offset, limit } => {
                &&& name == "tool_read"@
                &&& holds_text(args, "path"@, path)
                &&& is_number_under(args, "offset"@, offset)
                &&& is_number_under(args, "limit"@, limit)
            },
            ToolCallView::Write { path, content } => {
                &&& name == "tool_write"@
                &&& holds_text(args, "path"@, path)
                &&& holds_text(args, "content"@, content)
            },
            ToolCallView::Edit { path, old_text, new_text, replace_all, range } => {
                &&& name == "tool_edit"@
                &&& holds_text(args, "path"@, path)
                &&& holds_text(args, "old_text"@, old_text)
                &&& holds_text(args, "new_text"@, new_text)
                &&& !replace_all && range is None
            },
            ToolCallView::Exec { command, cwd, timeout_ms } => {
                &&& name == "tool_exec"@
                &&& holds_text(args, "command"@, command)
                &&& cwd is None && timeout_ms is None
            },
            ToolCallView::ListDir { path, limit } => {
                &&& name == "tool_list_dir"@
                &&& holds_text(args, "path"@, path)
                &&& limit is None
            },
            ToolCallView::Grep {
                path,
                pattern,
                glob_filter,
                case_insensitive,
                output_mode,
                max_results,
            } => {
                &&& name == "tool_grep"@
                &&& holds_text(args, "path"@, path)
                &&& holds_text(args, "pattern"@, pattern)
                &&& glob_filter is None && !case_insensitive
                &&& output_mode is None && max_results is None
            },
            ToolCallView::Find { path, pattern, limit } => {
                &&& name == "tool_find"@
                &&& holds_text(args, "path"@, path)
                &&& holds_text(args, "pattern"@, pattern)
                &&& limit is None
            },
            ToolCallView::MemorySave { name: entry, content, description, memory_type } => {
                &&& name == "tool_memory_save"@
                &&& holds_text(args, "name"@, entry)
                &&& holds_text(args, "content"@, content)
                &&& description is None && memory_type is None
            },
            ToolCallView::MemoryList => name == "tool_memory_list"@,
            ToolCallView::MemoryRead { name: entry } => {
                &&& name == "tool_memory_read"@
                &&& holds_text(args, "name"@, entry)
            },
            ToolCallView::MemoryForget { name: entry } => {
                &&& name == "tool_memory_forget"@
                &&& holds_text(args, "name"@, entry)
            },
            ToolCallView::SkillInstall { source, confirm, overwrite } => {
                &&& name == "tool_skill_install"@
                &&& holds_text(args, "source"@, source)
                &&& confirm <==> (args matches JsonView::Object(m) && m.contains_key("confirm"@)
                    && m["confirm"@] == JsonView::Bool(true))
                &&& !overwrite
            },
            ToolCallView::GetConfig => name == "settings_get_config"@,
            ToolCallView::SetConfig { config } => name == "settings_set_config"@ && config == args,
            ToolCallView::GetPathContext => name == "settings_get_path_context"@,
            ToolCallView::SetSkillDirs { dirs } => {
                &&& name == "settings_set_skill_dirs"@
                &&& args matches JsonView::Object(m)
                &&& m.contains_key("dirs"@)
                &&& m["dirs"@] matches JsonView::Array(items)
                &&& forall|s: Seq<char>|
                    #[trigger] dirs.contains(s) <==> items.contains(JsonView::Str(s))
            },
            ToolCallView::SaveDagRun { session_id, run_id, snapshot } => {
                &&& name == "storage_save_dag_run"@
                &&& holds_text(args, "session_id"@, session_id)
                &&& holds_text(args, "run_id"@, run_id)
                &&& holds_text(args, "snapshot"@, snapshot)
            },
            ToolCallView::LoadDagRuns { session_id, run_id } => {
                &&& name == "storage_load_dag_runs"@
                &&& holds_text(args, "session_id"@, session_id)
                &&& is_text_under(args, "run_id"@, run_id)
            },
        },
{
    if let ToolCallView::SetSkillDirs { dirs } = call {
        let items = array_member(args, "dirs"@)->0;
        assert forall|s: Seq<char>|
            #[trigger] dirs.contains(s) <==> items.contains(JsonView::Str(s)) by {
            lemma_string_items(items, s);
        }
    }
    if let ToolCallView::SessionMessages { limit, .. } = call {
        let n = uint_or(args, "limit"@, 50);
        if limit == u32::MAX {
            assert(holds_number(args, "limit"@, n));
        }
    }
}

proof fn lemma_string_items(v: Seq<JsonView>, s: Seq<char>)
    ensures
        string_items(v).contains(s) <==> v.contains(JsonView::Str(s)),
    decreases v.len(),
{
    if v.len() > 0 {
        let front = v.drop_last();
        let before = string_items(front);
        let all = string_items(v);
        lemma_string_items(front, s);
        assert(v =~= front.push(v.last()));
        if front.contains(JsonView::Str(s)) {
            let i = choose|i: int| 0 <= i < front.len() && front[i] == JsonView::Str(s);
            assert(v[i] == JsonView::Str(s));
        }
        if v.contains(JsonView::Str(s)) && v.last() != JsonView::Str(s) {
            let i = choose|i: int| 0 <= i < v.len() && v[i] == JsonView::Str(s);
            assert(front[i] == JsonView::Str(s));
        }
        if let Some(t) = string_in(v.last()) {
            assert(all == before.push(t));
            assert(all[before.len() as int] == t);
            if before.contains(s) {
                let i = choose|i: int| 0 <= i < before.len() && before[i] == s;
                assert(all[i] == s);
            }
            if all.contains(s) && s != t {
                let i = choose|i: int| 0 <= i < all.len() && all[i] == s;
                assert(before[i] == s);
            }
        }
    }
}

/// The texts of a list keep their order: those of two lists stand one after the other, and a
/// list of texts is kept as it is.
pub proof fn law_texts_of_a_list_keep_their_order(a: Seq<JsonView>, b: Seq<JsonView>, s: Seq<char>)
    ensures
        string_items(a + b) == string_items(a) + string_items(b),
        string_items(seq![JsonView::Str(s)]) == seq![s],
    decreases b.len(),
{
    let one = seq![JsonView::Str(s)];
    assert(one.drop_last() =~= Seq::empty());
    assert(string_items(one.drop_last()) =~= Seq::empty());
    assert(one.last() == JsonView::Str(s));
    assert(string_items(one) =~= seq![s]);
    if b.len() == 0 {
        assert(a + b =~= a);
        assert(string_items(a) + string_items(b) =~= string_items(a));
    } else {
        law_texts_of_a_list_keep_their_order(a, b.drop_last(), s);
        assert((a + b).drop_last() =~= a + b.drop_last());
        assert((a + b).last() == b.last());
        if let Some(t) = string_in(b.last()) {
            assert(string_items(a) + string_items(b.drop_last()).push(t) =~= (string_items(a)
                + string_items(b.drop_last())).push(t));
        }
    }
}

/// Whether two arguments hold the same under a name, or both nothing.
pub open spec fn agree_on(a: JsonView, b: JsonView, key: Seq<char>) -> bool {
    match (a, b) {
        (JsonView::Object(m), JsonView::Object(n)) => {
            &&& m.contains_key(key) == n.contains_key(key)
            &&& m.contains_key(key) ==> m[key] == n[key]
        },
        _ => a == b,
    }
}

proof fn lemma_agree(a: JsonView, b: JsonView, key: Seq<char>)
    requires
        a is Object && b is Object,
        agree_on(a, b, key),
    ensures
        string_member(a, key) == string_member(b, key),
        uint_member(a, key) == uint_member(b, key),
        bool_member(a, key) == bool_member(b, key),
        array_member(a, key) == array_member(b, key),
{
}

/// Members that the manifest does not name change nothing of a call: arguments that agree on
/// the parameters of a tool make the same plan. Only a change of the configuration is handed
/// on whole.
#[verifier::spinoff_prover]
#[verifier::rlimit(60)]
pub proof fn law_only_declared_parameters_count(t: ToolName, a: JsonView, b: JsonView)
    requires
        t != ToolName::SettingsSetConfig,
        a is Object && b is Object,
        forall|i: int|
            0 <= i < tool_params(t).len() ==> agree_on(a, b, (#[trigger] tool_params(t)[i]).name),
    ensures
        planned(t, a) == planned(t, b),
{
    let ps = tool_params(t);
    if ps.len() > 0 {
        lemma_agree(a, b, ps[0].name);
    }
    if ps.len() > 1 {
        lemma_agree(a, b, ps[1].name);
    }
    if ps.len() > 2 {
        lemma_agree(a, b, ps[2].name);
    }
}

/// A call that fails names the first required parameter, in the order of the manifest, that
/// the arguments do not hold in the form that the schema asks for.
pub proof fn law_first_unusable_parameter_is_named(t: ToolName, args: JsonView, i: int)
    requires
        0 <= i < tool_params(t).len(),
        tool_params(t)[i].required,
        !usable(tool_params(t)[i], args),
        forall|j: int|
            0 <= j < i && (#[trigger] tool_params(t)[j]).required ==> usable(
                tool_params(t)[j],
                args,
            ),
    ensures
        planned(t, args) == Err::<ToolCallView, Seq<char>>(
            "missing param `"@ + tool_params(t)[i].name + "`"@,
        ),
{
    let ps = tool_params(t);
    assert(ps[0] == ps[0]);
    if ps.len() > 1 {
        assert(ps[1] == ps[1]);
    }
    if ps.len() > 2 {
        assert(ps[2] == ps[2]);
    }
}

proof fn lemma_properties(params: Seq<ParamView>, key: Seq<char>)
    ensures
        properties(params).contains_key(key) <==> exists|i: int|
            0 <= i < params.len() && (#[trigger] params[i]).name == key,
        required_names(params).contains(key) <==> exists|i: int|
            0 <= i < params.len() && (#[trigger] params[i]).name == key && params[i].required,
    decreases params.len(),
{
    if params.len() > 0 {
        let front = params.drop_last();
        let last = params.last();
        lemma_properties(front, key);
        assert(params[params.len() - 1] == last);
        assert(forall|i: int| 0 <= i < front.len() ==> #[trigger] front[i] == params[i]);
        assert((exists|i: int| 0 <= i < params.len() && (#[trigger] params[i]).name == key) <==> (
        last.name == key || exists|i: int| 0 <= i < front.len() && (#[trigger] front[i]).name
            == key)) by {
            if exists|i: int| 0 <= i < front.len() && (#[trigger] front[i]).name == key {
                let i = choose|i: int| 0 <= i < front.len() && (#[trigger] front[i]).name == key;
                assert(params[i].name == key);
            }
            if exists|i: int| 0 <= i < params.len() && (#[trigger] params[i]).name == key {
                let i = choose|i: int| 0 <= i < params.len() && (#[trigger] params[i]).name == key;
                if i < front.len() {
                    assert(front[i].name == key);
                }
            }
        }
        let before = required_names(front);
        let all = required_names(params);
        if last.required {
            assert(all[before.len() as int] == last.name);
            if before.contains(key) {
                let i = choose|i: int| 0 <= i < before.len() && before[i] == key;
                assert(all[i] == key);
            }
            if all.contains(key) && key != last.name {
                let i = choose|i: int| 0 <= i < all.len() && all[i] == key;
                assert(before[i] == key);
            }
        }
        if exists|i: int|
            0 <= i < params.len() && (#[trigger] params[i]).name == key && params[i].required {
            let i = choose|i: int|
                0 <= i < params.len() && (#[trigger] params[i]).name == key && params[i].required;
            if i < front.len() {
                assert(front[i].name == key && front[i].required);
            }
        }
        if exists|i: int|
            0 <= i < front.len() && (#[trigger] front[i]).name == key && front[i].required {
            let i = choose|i: int|
                0 <= i < front.len() && (#[trigger] front[i]).name == key && front[i].required;
            assert(params[i].name == key && params[i].required);
        }
    }
}

/// The schema of a tool is an object whose properties are the parameters, no more and no fewer,
/// and which lists exactly the required ones as required.
pub proof fn law_schemas_declare_the_parameters(params: Seq<ParamView>, key: Seq<char>)
    ensures
        input_schema(params) matches JsonView::Object(schema) && {
            &&& schema.contains_key("type"@) && schema["type"@] == JsonView::Str("object"@)
            &&& schema.contains_key("properties"@)
            &&& schema["properties"@] matches JsonView::Object(named)
            &&& named.contains_key(key) <==> exists|i: int|
                0 <= i < params.len() && (#[trigger] params[i]).name == key
            &&& (schema.contains_key("required"@) && (schema["required"@] matches JsonView::Array(
                listed,
            ) && listed.contains(JsonView::Str(key)))) <==> exists|i: int|
                0 <= i < params.len() && (#[trigger] params[i]).name == key && params[i].required
        },
{
    reveal_strlit("type");
    reveal_strlit("required");
    reveal_strlit("properties");
    assert("type"@.len() == 4 && "required"@.len() == 8 && "properties"@.len() == 10);
    lemma_properties(params, key);
    let names = required_names(params);
    let listed = strings_view(names);
    if names.contains(key) {
        let i = choose|i: int| 0 <= i < names.len() && names[i] == key;
        assert(listed[i] == JsonView::Str(key));
        assert(names.len() > 0);
    }
    if listed.contains(JsonView::Str(key)) {
        let i = choose|i: int| 0 <= i < listed.len() && listed[i] == JsonView::Str(key);
        assert(names[i] == key);
    }
}

/// A result that is given under a name is the only member of what a tool gives back, and is what
/// the operation gave, unless the operation only tells that it was accepted.
pub proof fn law_results_are_given_back(t: ToolName, value: JsonView)
    ensures
        t == ToolName::SessionCreate ==> holds_alone(tool_result(t, value), "session_id"@, value),
        t == ToolName::SessionDelete ==> holds_alone(
            tool_result(t, value),
            "running_run_ids"@,
            value,
        ),
        t == ToolName::GraphClear ==> holds_alone(tool_result(t, value), "removed"@, value),
        t == ToolName::GraphRetry ==> holds_alone(tool_result(t, value), "reset_node_ids"@, value),
        t == ToolName::GraphSkip ==> holds_alone(tool_result(t, value), "skipped"@, value),
        t == ToolName::SettingsSetConfig || t == ToolName::SettingsSetSkillDirs ==> holds_alone(
            tool_result(t, value),
            "accepted"@,
            value,
        ),
        t == ToolName::SessionRename || t == ToolName::GraphCancel ==> holds_alone(
            tool_result(t, value),
            "accepted"@,
            JsonView::Bool(true),
        ),
        t == ToolName::ToolRead || t == ToolName::ToolWrite || t == ToolName::ToolEdit || t
            == ToolName::ToolExec || t == ToolName::ToolListDir || t == ToolName::ToolGrep || t
            == ToolName::ToolFind || t == ToolName::SessionList || t
            == ToolName::SessionGetSnapshot || t == ToolName::SessionListMessages || t
            == ToolName::GraphList || t == ToolName::SettingsGetConfig ==> tool_result(t, value)
            == value,
{
}

/// Whether a value is an object with one member.
pub open spec fn holds_alone(v: JsonView, key: Seq<char>, value: JsonView) -> bool {
    v matches JsonView::Object(m) && m.contains_key(key) && m[key] == value && forall|k: Seq<char>|
        #[trigger] m.contains_key(k) ==> k == key
}

} // verus!
