use theway_daemon::commands::triggers::{
    collect_trigger_audit_rows, preview_cron_text, render_cron_jobs, render_dynamic_trigger_rules,
    render_running_triggers, render_trigger_audit, render_trigger_sources, render_triggers_status,
    trigger_decision_details, CronJob, DynamicTriggerRule, HookState, NotificationHookStatus,
    NotificationStatusSnapshot, RunningTriggerState, TriggerRuntime, STATUS_COMMANDS_LINE,
};
use theway_daemon::json::Json;
use theway_daemon::session_tree::SessionTreeEntry;

fn parse(s: &str) -> Json {
    match Json::parse(s) {
        Ok(v) => v,
        Err(e) => panic!("{e}"),
    }
}

fn rule(id: &str, enabled: bool) -> DynamicTriggerRule {
    DynamicTriggerRule {
        id: id.to_string(),
        enabled,
        fire_once: true,
        promote_to_chat: false,
        fired_at: None,
        condition: "c".to_string(),
        action: "a".to_string(),
    }
}

fn source(state: HookState, label: &str) -> NotificationHookStatus {
    NotificationHookStatus {
        state,
        subscription_labels: vec![label.to_string()],
        queued_count: 1,
        dropped_count: 2,
        deduped_count: 3,
        last_event_at: None,
        last_error: Some("boom".to_string()),
        requires_attention: Some("login".to_string()),
    }
}

#[test]
fn cron_jobs_are_listed() {
    let job = CronJob {
        id: "j".to_string(),
        enabled: true,
        schedule: "* * * * *".to_string(),
        stateful: true,
        running_trace_id: Some("t".to_string()),
        action: "x".repeat(121),
        skipped_overlap_count: 2,
        last_error: None,
        last_fired_at: Some("now".to_string()),
    };
    let out = render_cron_jobs(&vec![job]);
    assert_eq!(out[0], "Cron jobs (session, 1):");
    assert_eq!(out[1], "  j  enabled  * * * * *  [stateful], running t");
    assert_eq!(out[2], format!("    action: {}…", "x".repeat(120)));
    assert_eq!(out[3], "    overlap skips: 2");
    assert_eq!(out[4], "    last fired: now");
    assert_eq!(preview_cron_text("abc", 3), "abc");
    assert_eq!(preview_cron_text("abc", 2), "ab…");
    assert_eq!(render_cron_jobs(&Vec::new()).len(), 1);
}

#[test]
fn rules_are_listed_up_to_a_limit() {
    assert_eq!(
        render_dynamic_trigger_rules(&Vec::new(), 5),
        vec!["Dynamic trigger rules: none"]
    );
    let rules = vec![rule("a", true), rule("b", false), rule("c", true)];
    let out = render_dynamic_trigger_rules(&rules, 2);
    assert_eq!(out[0], "Dynamic trigger rules (3):");
    assert_eq!(out.len(), 4);
    assert_eq!(out[3], "  ... 1 more; run /triggers rules");
    assert_eq!(render_dynamic_trigger_rules(&rules, 3).len(), 4);
}

#[test]
fn sources_and_actions_are_listed() {
    let out = render_trigger_sources(&vec![source(HookState::Connected, "s")]);
    assert_eq!(
        out[1],
        "  - source #1: connected queued=1 dropped=2 deduped=3 last_event=never  attention: login"
    );
    assert_eq!(out[2], "      subscriptions: s");
    assert_eq!(out[3], "      last error: boom");
    assert_eq!(
        render_trigger_sources(&Vec::new()),
        vec!["(no trigger sources registered)"]
    );
    let out = render_running_triggers(&vec![RunningTriggerState {
        trace_id: "t".to_string(),
        source_label: "s".to_string(),
        event_label: "e".to_string(),
        started_at: "now".to_string(),
        prompt_preview: "p".to_string(),
    }]);
    assert_eq!(out[1], "  - t  s / e  since now");
    assert_eq!(out[2], "      prompt: p");
}

#[test]
fn the_status_counts_rules_and_sources() {
    let snapshot = NotificationStatusSnapshot {
        runtime: TriggerRuntime {
            accepted_total: 1,
            deduped_total: 2,
            cycle_suppressed_total: 3,
            active_traces: 4,
            dedup_entries: 5,
        },
        hooks: vec![
            source(HookState::Connected, "the dynamic trigger periodic check"),
            source(
                HookState::Disconnected {
                    reason: "gone".to_string(),
                },
                "push",
            ),
        ],
        running: Vec::new(),
    };
    let rules = vec![rule("a", true), rule("b", false)];
    let out = render_triggers_status(&snapshot, &rules, 30, &None);
    assert_eq!(
        out[1],
        "  dynamic rules: 2 total, 1 enabled, 1 disabled (2 fire_once, 0 repeat, 0 promote_to_chat)"
    );
    assert_eq!(
        out[2],
        "  local dynamic checker: 1 registered, polls every 30s while enabled rules exist"
    );
    assert!(out[3].starts_with("  push trigger sources: 1 configured"));
    assert_eq!(out[4], "  storage: memory");
    assert_eq!(
        out[6],
        "  engine: accepted=1 deduped=2 cycle_suppressed=3 recent_traces=4 dedup_entries=5 running=0"
    );
    assert_eq!(out[7], "  sources: 2 total, 1 connected, 2 require attention");
    assert_eq!(out.last().unwrap(), STATUS_COMMANDS_LINE);
    assert_eq!(out.len(), 11);
}

fn custom(kind: &str, data: &str) -> SessionTreeEntry {
    SessionTreeEntry::Custom {
        timestamp: "at".to_string(),
        custom_type: kind.to_string(),
        data: Some(parse(data)),
    }
}

#[test]
fn the_audit_shows_the_newest_entries_first() {
    let entries = vec![
        custom(
            "trigger",
            r#"{"trace_id":"t1","state":"accepted","payload_summary":"p",
                "evaluator_decision":{"outcome":"accept","permission":"ask","reason":"r"}}"#,
        ),
        custom("other", "{}"),
        custom(
            "trigger_result",
            r#"{"trace_id":"t2","success":false,"reason":"because","branch_id":"b","message_count":7}"#,
        ),
        custom(
            "trigger_promotion",
            r#"{"trace_id":"t3","redaction_status":"clean","promote_kind":"k"}"#,
        ),
    ];
    let rows = collect_trigger_audit_rows(&entries, 10);
    assert_eq!(rows.len(), 3);
    assert_eq!(rows[0].trace_id.as_deref(), Some("t3"));
    assert_eq!(rows[0].summary.as_deref(), Some("redaction_status=clean"));
    assert_eq!(rows[0].state, "unknown");
    assert_eq!(rows[1].state, "failed");
    assert_eq!(rows[1].summary.as_deref(), Some("because"));
    assert_eq!(rows[1].details, vec!["branch_id: b", "message_count: 7"]);
    assert_eq!(
        rows[2].details,
        vec!["decision: accept", "permission: ask", "reason: r"]
    );
    assert_eq!(collect_trigger_audit_rows(&entries, 1).len(), 1);
    let out = render_trigger_audit(&rows);
    assert_eq!(out[0], "Recent trigger audit (3):");
    assert_eq!(
        render_trigger_audit(&Vec::new()),
        vec!["(no trigger audit entries in this session)"]
    );
}

#[test]
fn decisions_are_explained() {
    let details = |s: &str| trigger_decision_details(&parse(s));
    assert!(details("{}").is_empty());
    assert_eq!(
        details(r#"{"evaluator_decision":{}}"#),
        vec!["decision: present"]
    );
    assert_eq!(
        details(r#"{"evaluator_decision":{"outcome":"deduped","previous_trace_id":"p"}}"#),
        vec!["decision: deduped", "previous_trace_id: p"]
    );
    assert_eq!(
        details(r#"{"evaluator_decision":{"outcome":"cycle_suppressed","hop_count":4}}"#),
        vec!["decision: cycle_suppressed", "hop_count: 4"]
    );
    assert_eq!(
        details(r#"{"evaluator_decision":{"outcome":"other","reason":"r"}}"#),
        vec!["decision: other"]
    );
}
