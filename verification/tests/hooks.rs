use theway_daemon::hooks::event::{EventData, HookEvent, LoopEvent, MessageInfo, SessionEvent};
use theway_daemon::hooks::run::{HookRun, RunAction, RunEvent};
use theway_daemon::hooks::{
    command_result, load_with, project_hooks_allowed, webhook_result, CommandEnd, FileRead,
    HookCwd, HookFiles, HookPaths, HookRuleConfig, HookRunner, HookSession, HooksFile, KillReason,
    LoadedHooks, OnFailure,
};
use theway_daemon::json::Json;

fn rule(event: &str, command: Option<&str>) -> HookRuleConfig {
    HookRuleConfig {
        event: event.to_string(),
        command: command.map(str::to_string),
        webhook: None,
        headers: Vec::new(),
        timeout_ms: None,
        enabled: None,
        cwd: None,
        on_failure: None,
        tool: None,
    }
}

fn file(allow_project_hooks: bool, hooks: Vec<HookRuleConfig>) -> FileRead {
    FileRead::Parsed(HooksFile { allow_project_hooks, hooks })
}

fn files(user: FileRead, project: FileRead, allow_env: Option<&str>) -> Option<HookFiles> {
    Some(HookFiles {
        user_path: "/u/hooks.toml".to_string(),
        user,
        project_path: "/p/hooks.toml".to_string(),
        project,
        allow_env: allow_env.map(str::to_string),
    })
}

fn session() -> HookSession {
    HookSession {
        session_id: "s1".to_string(),
        model: Some(("prov".to_string(), "model".to_string())),
        thinking_level: None,
    }
}

fn paths() -> HookPaths {
    HookPaths { work_dir: "/w".to_string(), base: "/b".to_string(), home: "/h".to_string() }
}

fn load(files: Option<HookFiles>) -> LoadedHooks {
    load_with(&files, &session(), &paths(), true, true)
}

fn commands(runner: &HookRunner) -> Vec<String> {
    runner.rules.iter().map(|r| r.command.clone().unwrap_or_default()).collect()
}

fn tool_start(name: &str) -> EventData {
    EventData::from_agent_event(&LoopEvent::ToolExecutionStart {
        tool_call_id: "c1".to_string(),
        tool_name: name.to_string(),
        args: Json::object().with("x", Json::UInt(1)),
    })
    .unwrap()
}

#[test]
fn event_names_round_trip() {
    let all = [
        "agent_start", "agent_end", "turn_start", "turn_end", "message_start", "message_update",
        "message_end", "tool_start", "tool_update", "tool_end", "compaction",
    ];
    for name in all {
        assert_eq!(HookEvent::parse(name).map(|e| e.as_str()), Some(name));
    }
    assert_eq!(HookEvent::parse("Tool_Start"), None);
}

#[test]
fn events_tell_what_hooks_may_know() {
    let message = || MessageInfo { kind: "user".to_string(), summary: "hi".to_string() };
    let d = EventData::from_agent_event(&LoopEvent::TurnCompleted { message: message() }).unwrap();
    assert_eq!((d.event, d.message_kind.as_deref()), (HookEvent::TurnEnd, Some("user")));
    assert_eq!(d.tool_name, None);
    let d = EventData::from_agent_event(&LoopEvent::MessageUpdate {
        message: message(),
        assistant_event: "text".to_string(),
    })
    .unwrap();
    assert_eq!((d.event, d.assistant_event.as_deref()), (HookEvent::MessageUpdate, Some("text")));
    let d = EventData::from_agent_event(&LoopEvent::ToolExecutionEnd {
        tool_call_id: "c".to_string(),
        tool_name: "bash".to_string(),
        result: "out".to_string(),
        is_error: true,
    })
    .unwrap();
    assert_eq!((d.event, d.tool_is_error), (HookEvent::ToolEnd, Some(true)));
    assert_eq!(d.tool_result_summary.as_deref(), Some("out"));
    assert!(d.tool_args.is_none());
    let d = tool_start("bash");
    assert_eq!(d.tool_args.map(|a| a.render()).as_deref(), Some(r#"{"x":1}"#));
    assert!(EventData::from_agent_event(&LoopEvent::ControlPlanePromptResolved).is_none());
    let d = EventData::from_harness_event(&SessionEvent::Compaction {
        trigger: "auto".to_string(),
        summary: "sum".to_string(),
        tokens_before: 9,
    })
    .unwrap();
    assert_eq!((d.event, d.compaction_tokens_before), (HookEvent::Compaction, Some(9)));
    assert!(EventData::from_harness_event(&SessionEvent::Branch).is_none());
}

#[test]
fn rules_are_loaded_with_defaults() {
    let mut off = rule("agent_end", Some("off"));
    off.enabled = Some(false);
    let mut hook = rule("tool_end", Some("  "));
    hook.webhook = Some("http://h".to_string());
    hook.timeout_ms = Some(7);
    hook.cwd = Some(HookCwd::Home);
    hook.on_failure = Some(OnFailure::Ignore);
    let loaded = load(files(
        file(
            false,
            vec![rule("agent_start", Some("run")), off, rule("nope", Some("x")), rule("turn_end", Some(" ")), hook],
        ),
        FileRead::Missing,
        None,
    ));
    assert_eq!(
        loaded.diagnostics,
        vec![
            "hooks user: hook #3 has unknown event \"nope\"".to_string(),
            "hooks user: hook #4 has neither command nor webhook".to_string(),
        ]
    );
    let rules = &loaded.runner.rules;
    assert_eq!(loaded.runner.len(), 2);
    assert_eq!((rules[0].timeout_ms, rules[0].cwd, rules[0].on_failure), (5_000, HookCwd::Project, OnFailure::Warn));
    assert_eq!((rules[1].command.as_deref(), rules[1].webhook.as_deref()), (None, Some("http://h")));
    assert_eq!(
        rules[0].warning("boom").as_deref(),
        Some("hook user agent_start failed: boom")
    );
    assert_eq!(rules[1].warning("boom"), None);
    assert_eq!(loaded.runner.cwd_for(&rules[0]), "/w");
    assert_eq!(loaded.runner.cwd_for(&rules[1]), "/h");
}

#[test]
fn project_hooks_need_permission() {
    let user = || file(false, vec![rule("agent_start", Some("u"))]);
    let project = || file(true, vec![rule("agent_start", Some("p"))]);
    let loaded = load(files(user(), project(), None));
    assert_eq!(commands(&loaded.runner), vec!["u".to_string()]);
    assert_eq!(
        loaded.diagnostics,
        vec!["project hooks ignored at /p/hooks.toml; set allow_project_hooks = true in /u/hooks.toml or THEWAY_ALLOW_PROJECT_HOOKS=1".to_string()]
    );
    for value in ["1", "true", "TRUE"] {
        let loaded = load(files(user(), project(), Some(value)));
        assert_eq!(commands(&loaded.runner), vec!["u".to_string(), "p".to_string()]);
        assert!(loaded.diagnostics.is_empty());
    }
    assert!(!project_hooks_allowed(&Some("yes".to_string()), &user()));
    assert!(project_hooks_allowed(&None, &project()));
    assert!(load(None).runner.is_empty());
}

#[test]
fn unreadable_hook_files_are_noted() {
    let loaded = load(files(
        FileRead::ReadFailed("denied".to_string()),
        FileRead::ParseFailed("line 2".to_string()),
        Some("1"),
    ));
    assert_eq!(
        loaded.diagnostics,
        vec![
            "hooks user: read /u/hooks.toml failed: denied".to_string(),
            "hooks project: parse /p/hooks.toml failed: line 2".to_string(),
        ]
    );
}

#[test]
fn rules_that_nothing_can_run_are_noted() {
    let mut both = rule("tool_start", Some("run"));
    both.webhook = Some("http://h".to_string());
    let loaded = load_with(
        &files(file(false, vec![both]), FileRead::Missing, None),
        &session(),
        &paths(),
        false,
        false,
    );
    assert_eq!(loaded.diagnostics.len(), 2);
    let plan = loaded.runner.plan(&loaded.runner.rules[0]);
    assert_eq!((plan.command, plan.webhook), (None, None));
    assert_eq!(
        plan.skipped,
        vec![
            "hook user tool_start: command side effect skipped (no command executor injected)".to_string(),
            "hook user tool_start: webhook side effect skipped (no webhook sender injected)".to_string(),
        ]
    );
}

#[test]
fn exactly_the_matching_rules_run() {
    let mut bash = rule("tool_start", Some("b"));
    bash.tool = Some("bash".to_string());
    let loaded = load(files(
        file(false, vec![bash, rule("tool_end", Some("e")), rule("tool_start", Some("any"))]),
        FileRead::Missing,
        None,
    ));
    assert_eq!(loaded.runner.matching(&tool_start("bash")), vec![0, 2]);
    assert_eq!(loaded.runner.matching(&tool_start("read")), vec![2]);
    let payload = loaded.runner.payload_for(&loaded.runner.rules[0], &tool_start("bash"));
    assert_eq!(payload.event, "tool_start");
    assert_eq!((payload.session_id.as_str(), payload.cwd.as_str()), ("s1", "/w"));
    assert_eq!((payload.model_provider.as_str(), payload.model_id.as_str()), ("prov", "model"));
    assert_eq!(payload.thinking_level, "off");
    assert_eq!(payload.source.as_deref(), Some("user"));
    assert_eq!(payload.tool_call_id.as_deref(), Some("c1"));
    let other = HookSession {
        session_id: "s2".to_string(),
        model: None,
        thinking_level: Some("high".to_string()),
    };
    let moved = loaded.runner.for_session(&other);
    assert_eq!((moved.session_id.as_str(), moved.model_id.as_str()), ("s2", ""));
    assert_eq!(moved.thinking_level, "high");
    assert_eq!(commands(&moved), commands(&loaded.runner));
}

#[test]
fn commands_and_webhooks_end() {
    let end = |kill_reason, exit_code| CommandEnd {
        kill_reason,
        exit_code,
        stdout: "out".to_string(),
        stderr: " err\n".to_string(),
    };
    let ok = command_result(&end(None, Some(0)), 5).unwrap();
    assert_eq!((ok.stdout.as_str(), ok.stderr.as_str()), ("out", " err\n"));
    let fault = |k, c| command_result(&end(k, c), 50).unwrap_err();
    assert_eq!(fault(None, Some(-1)), "command exited -1: err");
    assert_eq!(fault(None, None), "command failed to produce an exit code");
    assert_eq!(fault(Some(KillReason::Cancelled), Some(0)), "cancelled");
    assert_eq!(fault(Some(KillReason::TimedOut), None), "timed out after 50ms");
    assert!(webhook_result(true, "200 OK", "").is_ok());
    let long = "é".repeat(600);
    assert_eq!(
        webhook_result(false, "500 Oops", &long).unwrap_err(),
        format!("webhook status 500 Oops: {}", "é".repeat(500))
    );
}

#[test]
fn rules_run_one_after_the_other() {
    let mut both = rule("tool_start", Some("first"));
    both.webhook = Some("http://hook".to_string());
    let mut quiet = rule("tool_start", Some("second"));
    quiet.on_failure = Some(OnFailure::Ignore);
    let runner =
        load(files(file(false, vec![both, quiet, rule("tool_end", Some("no"))]), FileRead::Missing, None))
            .runner;
    let (mut run, action) = HookRun::start(&runner, &tool_start("bash"));
    assert!(matches!(action, RunAction::CheckCancelled));
    assert!(matches!(run.step(&runner, &RunEvent::WebhookEnded(Ok(()))), (RunAction::Wait, None)));
    let (action, _) = run.step(&runner, &RunEvent::Cancelled(false));
    assert!(matches!(action, RunAction::RunCommand(c) if c == "first"));
    let (action, _) = run.step(&runner, &RunEvent::CommandEnded(Ok(())));
    assert!(matches!(action, RunAction::SendWebhook(u) if u == "http://hook"));
    let (action, warning) = run.step(&runner, &RunEvent::WebhookEnded(Err("gone".to_string())));
    assert!(matches!(action, RunAction::CheckCancelled));
    assert_eq!(warning.as_deref(), Some("hook user tool_start failed: gone"));
    let (action, _) = run.step(&runner, &RunEvent::Cancelled(false));
    assert!(matches!(action, RunAction::RunCommand(c) if c == "second"));
    let (action, warning) = run.step(&runner, &RunEvent::CommandEnded(Err("bad".to_string())));
    assert!(matches!(action, RunAction::Finish));
    assert_eq!(warning, None);
}

#[test]
fn failed_and_cancelled_hooks_send_nothing() {
    let mut both = rule("tool_start", Some("first"));
    both.webhook = Some("http://hook".to_string());
    let runner = load(files(file(false, vec![both]), FileRead::Missing, None)).runner;
    let (mut run, _) = HookRun::start(&runner, &tool_start("bash"));
    run.step(&runner, &RunEvent::Cancelled(false));
    let (action, warning) = run.step(&runner, &RunEvent::CommandEnded(Err("bad".to_string())));
    assert!(matches!(action, RunAction::Finish));
    assert_eq!(warning.as_deref(), Some("hook user tool_start failed: bad"));
    let (mut run, _) = HookRun::start(&runner, &tool_start("bash"));
    assert!(matches!(run.step(&runner, &RunEvent::Cancelled(true)), (RunAction::Finish, None)));
    let idle = load(None).runner;
    assert!(matches!(HookRun::start(&idle, &tool_start("bash")).1, RunAction::Finish));
}
