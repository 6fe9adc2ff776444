use theway_daemon::json::Json;
use theway_daemon::mcp_server::{
    call_tool, execute, node_output_reply, tool_reply, tool_specs, CallPlan, ToolCall, ToolName,
};

fn args(s: &str) -> Json {
    match Json::parse(s) {
        Ok(v) => v,
        Err(e) => panic!("{e}"),
    }
}

fn run(name: &str, s: &str) -> ToolCall {
    match execute(name, &args(s)) {
        Ok(c) => c,
        Err(e) => panic!("{e}"),
    }
}

fn fails(name: &str, s: &str) -> String {
    match execute(name, &args(s)) {
        Ok(c) => panic!("{c:?}"),
        Err(e) => e,
    }
}

#[test]
fn manifest_lists_every_tool_once() {
    let specs = tool_specs();
    assert_eq!(specs.len(), 30);
    for (i, spec) in specs.iter().enumerate() {
        assert!(specs[..i].iter().all(|s| s.name != spec.name));
        assert_eq!(ToolName::named(spec.name).map(|t| t.as_str()), Some(spec.name));
        assert!(!spec.description.is_empty());
    }
    assert_eq!(specs[0].name, "session_list");
    assert_eq!(specs[0].schema.render(), r#"{"properties":{},"type":"object"}"#);
    let messages = &specs[5];
    assert_eq!(messages.name, "session_list_messages");
    assert_eq!(
        messages.schema.render(),
        r#"{"properties":{"before_entry_id":{"type":"string"},"limit":{"minimum":1,"type":"integer"},"session_id":{"type":"string"}},"required":["session_id"],"type":"object"}"#
    );
    let dirs = specs.iter().find(|s| s.name == "settings_set_skill_dirs").unwrap();
    assert_eq!(
        dirs.schema.render(),
        r#"{"properties":{"dirs":{"items":{"type":"string"},"type":"array"}},"required":["dirs"],"type":"object"}"#
    );
}

#[test]
fn unknown_tools_and_bad_arguments_are_told_apart() {
    match call_tool("nope", None) {
        CallPlan::NotFound(m) => assert_eq!(m, "tool not found: nope"),
        other => panic!("{other:?}"),
    }
    match call_tool("session_rename", Some(&args(r#"{"id":"a"}"#))) {
        CallPlan::Failed(m) => assert_eq!(m, "missing param `name`"),
        other => panic!("{other:?}"),
    }
    match call_tool("session_delete", None) {
        CallPlan::Failed(m) => assert_eq!(m, "missing param `id`"),
        other => panic!("{other:?}"),
    }
    assert!(matches!(call_tool("session_list", None), CallPlan::Run(ToolName::SessionList, ToolCall::SessionList)));
    assert_eq!(fails("nope", "{}"), "tool not found: nope");
    assert_eq!(fails("tool_edit", r#"{"path":"p","new_text":"n"}"#), "missing param `old_text`");
    assert_eq!(fails("tool_read", r#"{"path":7}"#), "missing param `path`");
    assert_eq!(fails("settings_set_skill_dirs", r#"{"dirs":"d"}"#), "missing param `dirs`");
}

#[test]
fn session_calls_are_planned() {
    match run("session_create", r#"{"session_id":"s","name":"  "}"#) {
        ToolCall::SessionCreate { session_id, rename } => {
            assert_eq!(session_id.as_deref(), Some("s"));
            assert_eq!(rename, None);
        }
        other => panic!("{other:?}"),
    }
    match run("session_create", r#"{"name":" n "}"#) {
        ToolCall::SessionCreate { session_id, rename } => {
            assert_eq!(session_id, None);
            assert_eq!(rename.as_deref(), Some(" n "));
        }
        other => panic!("{other:?}"),
    }
    match run("session_get_snapshot", "{}") {
        ToolCall::SessionSnapshot { session_id } => assert_eq!(session_id, ""),
        other => panic!("{other:?}"),
    }
    match run("session_list_messages", r#"{"session_id":"s"}"#) {
        ToolCall::SessionMessages { session_id, before_entry_id, limit } => {
            assert_eq!((session_id.as_str(), before_entry_id, limit), ("s", None, 50));
        }
        other => panic!("{other:?}"),
    }
    match run("session_list_messages", r#"{"session_id":"s","limit":5000000000,"before_entry_id":"e"}"#) {
        ToolCall::SessionMessages { before_entry_id, limit, .. } => {
            assert_eq!((before_entry_id.as_deref(), limit), (Some("e"), u32::MAX));
        }
        other => panic!("{other:?}"),
    }
}

#[test]
fn graph_calls_are_planned() {
    match run("graph_clear", "{}") {
        ToolCall::GraphClear { session_id, keep } => assert_eq!((session_id, keep), (None, 0)),
        other => panic!("{other:?}"),
    }
    match run("graph_cancel", r#"{"run_id":"r"}"#) {
        ToolCall::GraphCancel { run_id, reason } => {
            assert_eq!((run_id.as_str(), reason.as_str()), ("r", "cancelled via mcp"));
        }
        other => panic!("{other:?}"),
    }
    match run("get_node_output", r#"{"run_id":"r","node_id":"n","offset":4}"#) {
        ToolCall::NodeOutput { run_id, node_id, offset } => {
            assert_eq!((run_id.as_str(), node_id.as_str(), offset), ("r", "n", 4));
        }
        other => panic!("{other:?}"),
    }
}

#[test]
fn file_and_setting_calls_are_planned() {
    match run("tool_read", r#"{"path":"p","limit":3}"#) {
        ToolCall::Read { path, offset, limit } => {
            assert_eq!((path.as_str(), offset, limit), ("p", None, Some(3)));
        }
        other => panic!("{other:?}"),
    }
    match run("tool_skill_install", r#"{"source":"s","confirm":"yes"}"#) {
        ToolCall::SkillInstall { confirm, .. } => assert!(!confirm),
        other => panic!("{other:?}"),
    }
    match run("tool_skill_install", r#"{"source":"s","confirm":true}"#) {
        ToolCall::SkillInstall { confirm, overwrite, .. } => assert!(confirm && !overwrite),
        other => panic!("{other:?}"),
    }
    match run("tool_edit", r#"{"path":"p","old_text":"a","new_text":"b"}"#) {
        ToolCall::Edit { path, old_text, new_text, replace_all, range } => {
            assert_eq!((path.as_str(), old_text.as_str(), new_text.as_str()), ("p", "a", "b"));
            assert!(!replace_all && range.is_none());
        }
        other => panic!("{other:?}"),
    }
    match run("tool_grep", r#"{"path":"p","pattern":"x","case_insensitive":true}"#) {
        ToolCall::Grep { pattern, case_insensitive, max_results, .. } => {
            assert_eq!(pattern, "x");
            assert!(!case_insensitive && max_results.is_none());
        }
        other => panic!("{other:?}"),
    }
    match run("settings_set_skill_dirs", r#"{"dirs":["a",1,"b"]}"#) {
        ToolCall::SetSkillDirs { dirs } => assert_eq!(dirs, vec!["a".to_string(), "b".to_string()]),
        other => panic!("{other:?}"),
    }
    match run("settings_set_config", r#"{"x":1}"#) {
        ToolCall::SetConfig { config } => assert_eq!(config.render(), r#"{"x":1}"#),
        other => panic!("{other:?}"),
    }
    match run("storage_load_dag_runs", r#"{"session_id":"s"}"#) {
        ToolCall::LoadDagRuns { session_id, run_id } => {
            assert_eq!((session_id.as_str(), run_id), ("s", None));
        }
        other => panic!("{other:?}"),
    }
}

#[test]
fn replies_are_objects() {
    let told = |t: ToolName, v: Json| tool_reply(t, v).render();
    assert_eq!(told(ToolName::SessionList, Json::array(Vec::new())), "[]");
    assert_eq!(told(ToolName::SessionCreate, Json::text("s")), r#"{"session_id":"s"}"#);
    assert_eq!(told(ToolName::SessionRename, Json::Null), r#"{"accepted":true}"#);
    assert_eq!(told(ToolName::SettingsSetConfig, Json::Bool(false)), r#"{"accepted":false}"#);
    assert_eq!(told(ToolName::SessionDelete, Json::array(Vec::new())), r#"{"running_run_ids":[]}"#);
    assert_eq!(told(ToolName::GraphClear, Json::UInt(2)), r#"{"removed":2}"#);
    assert_eq!(told(ToolName::GraphSkip, Json::Bool(true)), r#"{"skipped":true}"#);
    assert_eq!(
        node_output_reply(Json::text("o"), 2, true, Json::array(Vec::new()), false).render(),
        r#"{"messages":[],"messages_truncated":false,"offset":2,"output":"o","truncated":true}"#
    );
}
