use theway_daemon::commands::session::{
    fork_success_line, gh_bin, short_id, yes_no, CollapseAction, CollapseCommand, CollapseEvent,
    CollapseResult, CollapseRun, ExportSummary, ForkCommand, ForkEntry, ForkPlan, ForkStage,
    ForkStep, ImportEnd, ImportSummary, NameCommand, NamePlan, SaveCommand, SessionCommand,
    SessionPlan, ShareCommand, ShareEnd, UndoCommand, ARCHIVE_WARNING, COLLAPSE_BUSY_LINE,
    COLLAPSE_SUMMARY_INSTRUCTION, FORK_HINT,
};
use theway_daemon::commands::{CommandOutcome, Report};
use theway_daemon::json::Json;
use theway_daemon::session_tree::{AgentMessage, LlmMessage, SessionTreeEntry, UserContent};

fn args(v: &[&str]) -> Vec<String> {
    v.iter().map(|s| s.to_string()).collect()
}

fn error(outcome: CommandOutcome) -> String {
    match outcome {
        CommandOutcome::Error(e) => e,
        other => panic!("not an error: {other:?}"),
    }
}

fn lines(report: Report) -> Vec<String> {
    assert!(matches!(report.outcome, CommandOutcome::Handled));
    report.lines
}

#[test]
fn fork_success_line_uses_full_id_and_short_switch_hint() {
    let line = fork_success_line("0123456789abcdef-0123456789abcdef");
    assert_eq!(
        line,
        "forked session 0123456789abcdef-0123456789abcdef — /session switch 0123456789abcdef to continue there"
    );
}

#[test]
fn short_identifiers_and_answers() {
    assert_eq!(short_id("abc"), "abc");
    assert_eq!(short_id("éééééééééééééééééé"), "éééééééééééééééé");
    assert_eq!(yes_no(true), "yes");
    assert_eq!(yes_no(false), "no");
}

#[test]
fn save_goes_to_the_working_directory() {
    let c = SaveCommand;
    assert_eq!(c.info().name, "save");
    assert_eq!(c.destination(&args(&["out.md"]), "d.md", "/w"), "/w/out.md");
    assert_eq!(c.destination(&args(&["/abs.md"]), "d.md", "/w"), "/abs.md");
    assert_eq!(c.destination(&args(&[]), "d.md", "/w"), "/w/d.md");
    assert_eq!(
        lines(c.report(&Ok("/w/d.md".to_string()))),
        vec!["saved transcript: /w/d.md"]
    );
    assert_eq!(
        error(c.report(&Err("full".to_string())).outcome),
        "save failed: full"
    );
}

fn user_entry(id: &str, parent: Option<&str>) -> SessionTreeEntry {
    SessionTreeEntry::Message {
        id: id.to_string(),
        parent_id: parent.map(|p| p.to_string()),
        message: AgentMessage::Llm(LlmMessage::User(UserContent::Text("x".to_string()))),
    }
}

#[test]
fn undo_moves_before_the_last_user_message() {
    let c = UndoCommand;
    let branch = vec![
        user_entry("a", None),
        SessionTreeEntry::Other,
        user_entry("b", Some("a")),
        SessionTreeEntry::Other,
    ];
    assert_eq!(c.target(&Ok(branch)).unwrap(), Some("a".to_string()));
    assert_eq!(
        error(c.target(&Ok(vec![SessionTreeEntry::Other])).unwrap_err()),
        "no user message to undo"
    );
    assert_eq!(
        error(c.target(&Err("io".to_string())).unwrap_err()),
        "read branch: io"
    );
    assert_eq!(lines(c.report(&Ok(()))), vec!["undid last turn"]);
    assert_eq!(
        error(c.report(&Err("x".to_string())).outcome),
        "undo failed: x"
    );
}

#[test]
fn names_of_sessions() {
    let c = NameCommand;
    assert!(matches!(c.plan(&args(&[])), NamePlan::Show));
    match c.plan(&args(&["my", "name "])) {
        NamePlan::Assign(n) => assert_eq!(n, "my name"),
        other => panic!("{other:?}"),
    }
    match c.plan(&args(&[" "])) {
        NamePlan::Refused(o) => assert_eq!(error(o), "empty name"),
        other => panic!("{other:?}"),
    }
    assert_eq!(
        lines(c.show_report(&Ok(Some("n".to_string())))),
        vec!["session name: n"]
    );
    assert_eq!(lines(c.show_report(&Ok(None))), vec!["(unnamed session)"]);
    assert_eq!(
        error(c.show_report(&Err("e".to_string())).outcome),
        "read name: e"
    );
    assert_eq!(
        lines(c.set_report("n", &Ok(()))),
        vec!["session name set to: n"]
    );
    assert_eq!(
        error(c.set_report("n", &Err("e".to_string())).outcome),
        "set name failed: e"
    );
}

#[test]
fn archives_are_planned() {
    let c = SessionCommand;
    match c.plan(&args(&["export", "--exclude-triggers", "a.theway-session"])) {
        SessionPlan::Export {
            path,
            exclude_triggers,
        } => {
            assert_eq!(path.as_deref(), Some("a.theway-session"));
            assert!(exclude_triggers);
        }
        other => panic!("{other:?}"),
    }
    match c.plan(&args(&["import", "a"])) {
        SessionPlan::Import { path } => assert_eq!(path, "a"),
        other => panic!("{other:?}"),
    }
    let refused = |v: &[&str]| match c.plan(&args(v)) {
        SessionPlan::Refused(o) => error(o),
        other => panic!("{other:?}"),
    };
    assert!(refused(&[]).starts_with("usage: /session export"));
    assert_eq!(
        refused(&["export", "a", "b"]),
        "usage: /session export [path] [--exclude-triggers]"
    );
    assert_eq!(refused(&["import"]), "usage: /session import <path>");
    assert_eq!(
        refused(&["drop"]),
        "unknown /session subcommand: drop; use /session export [path] or /session import <path>"
    );
    assert_eq!(c.archive_path(&None, "d", "/w"), "/w/d");
    assert_eq!(c.archive_path(&Some("p".to_string()), "d", "/w"), "/w/p");
    assert_eq!(c.import_path("p.theway-session", "/w"), "/w/p.theway-session");
    assert_eq!(c.import_path("/a/p", "/w"), "/a/p");
}

#[test]
fn archives_are_reported() {
    let c = SessionCommand;
    let exported = c.export_report(&Ok(ExportSummary {
        output_path: "/w/a".to_string(),
        session_id: "0123456789abcdef0".to_string(),
        entry_count: 3,
        has_triggers: true,
        has_cron: false,
    }));
    assert_eq!(
        lines(exported),
        vec![
            ARCHIVE_WARNING,
            "exported session archive: /w/a",
            "session 0123456789abcdef entries=3 triggers=yes cron=no"
        ]
    );
    let failed = c.export_report(&Err("e".to_string()));
    assert_eq!(failed.lines, vec![ARCHIVE_WARNING]);
    assert_eq!(error(failed.outcome), "session export failed: e");

    let summary = |triggers: &[&str]| ImportSummary {
        session_id: "s".to_string(),
        session_path: "/p".to_string(),
        entry_count: 1,
        triggers_imported: 2,
        cron_imported: 0,
        automation_enabled: false,
        originally_enabled_triggers: args(triggers),
        originally_enabled_cron: Vec::new(),
    };
    let imported = c.import_report(&ImportEnd::Imported(summary(&[])));
    assert_eq!(
        lines(imported)[3],
        "entries=1 triggers=2 cron=0 automation=disabled"
    );
    match c
        .import_report(&ImportEnd::Imported(summary(&["t"])))
        .outcome
    {
        CommandOutcome::SessionImportActivation {
            session_path,
            trigger_ids,
            cron_ids,
        } => {
            assert_eq!(session_path, "/p");
            assert_eq!(trigger_ids, vec!["t"]);
            assert!(cron_ids.is_empty());
        }
        other => panic!("{other:?}"),
    }
    let no_repo = c.import_report(&ImportEnd::NoRepo("e".to_string()));
    assert!(no_repo.lines.is_empty());
    assert_eq!(error(no_repo.outcome), "open session repo: e");
    let lost = c.import_report(&ImportEnd::Failed("e".to_string()));
    assert_eq!(lost.lines, vec![ARCHIVE_WARNING]);
    assert_eq!(error(lost.outcome), "session import failed: e");
}

fn fork_entries() -> Vec<ForkEntry> {
    vec![
        ForkEntry {
            id: "u1".to_string(),
            preview: Some("first".to_string()),
        },
        ForkEntry {
            id: "a1".to_string(),
            preview: None,
        },
        ForkEntry {
            id: "u2".to_string(),
            preview: Some("x".repeat(61)),
        },
    ]
}

#[test]
fn forks_are_listed_newest_first() {
    let c = ForkCommand;
    match c.plan(&args(&[]), &Ok(fork_entries())) {
        ForkPlan::List(report) => assert_eq!(
            lines(report),
            vec![
                "user messages (newest first):".to_string(),
                format!("  1) {}…", "x".repeat(60)),
                "  2) first".to_string(),
                FORK_HINT.to_string()
            ]
        ),
        other => panic!("{other:?}"),
    }
    let refused = |v: &[&str], read: &Result<Vec<ForkEntry>, String>| {
        match c.plan(&args(v), read) {
            ForkPlan::Refused(o) => error(o),
            other => panic!("{other:?}"),
        }
    };
    assert_eq!(
        refused(&["1"], &Ok(Vec::new())),
        "no user messages to fork from"
    );
    assert_eq!(refused(&["1"], &Err("e".to_string())), "read session: e");
    for bad in ["0", "3", "x", ""] {
        assert_eq!(
            refused(&[bad], &Ok(fork_entries())),
            "fork index must be 1..=2 (run /fork to list messages)"
        );
    }
    match c.plan(&args(&["2"]), &Ok(fork_entries())) {
        ForkPlan::Before { entry_id } => assert_eq!(entry_id, "u1"),
        other => panic!("{other:?}"),
    }
}

#[test]
fn forks_run_through_their_steps() {
    let c = ForkCommand;
    let mut stage = ForkStage::CollectEntries;
    let mut seen = 1;
    loop {
        match c.advance(stage, &Ok(())) {
            ForkStep::Next(next) => {
                stage = next;
                seen += 1;
            }
            ForkStep::Finished => break,
            ForkStep::Failed(o) => panic!("{o:?}"),
        }
    }
    assert_eq!(seen, 6);
    let failure = |stage: ForkStage| match c.advance(stage, &Err("e".to_string())) {
        ForkStep::Failed(o) => error(o),
        other => panic!("{other:?}"),
    };
    assert_eq!(failure(ForkStage::CollectEntries), "fork failed: e");
    assert_eq!(failure(ForkStage::OpenRepo), "open session repo: e");
    assert_eq!(failure(ForkStage::EncodeEntries), "fork failed: e");
    assert_eq!(failure(ForkStage::AskExtensions), "fork cancelled: e");
    assert_eq!(failure(ForkStage::CreateSession), "fork failed: e");
    assert_eq!(
        failure(ForkStage::ReadMetadata),
        "fork created but unreadable: e"
    );
    let meta = match Json::parse(r#"{"id": "n"}"#) {
        Ok(v) => v,
        Err(e) => panic!("{e}"),
    };
    assert_eq!(
        lines(c.report(&meta)),
        vec![
            "forked session n — /session switch n to continue there",
            "resume with: theway --resume-id n"
        ]
    );
    assert!(lines(c.report(&Json::Null))[0].starts_with("forked session ? "));
}

fn collapse(v: &[&str]) -> CollapseRun {
    CollapseCommand.start(&args(v), "s").unwrap()
}

fn to_summary(run: &mut CollapseRun) {
    assert!(matches!(
        run.step(&CollapseEvent::RepoOpened(Ok(()))).0,
        CollapseAction::OpenSession
    ));
    assert!(matches!(
        run.step(&CollapseEvent::SessionOpened(Ok(true))).0,
        CollapseAction::ReadSummary
    ));
}

#[test]
fn a_collapse_asks_the_model_when_it_may() {
    let mut run = collapse(&["name", "--adopt"]);
    assert_eq!(run.name.as_deref(), Some("name"));
    to_summary(&mut run);
    match run
        .step(&CollapseEvent::SummaryRead {
            existing: Ok(Some("  ".to_string())),
            streaming: false,
        })
        .0
    {
        CollapseAction::AskModel { instruction } => {
            assert_eq!(instruction, COLLAPSE_SUMMARY_INSTRUCTION)
        }
        other => panic!("{other:?}"),
    }
    match run
        .step(&CollapseEvent::ModelAnswered(Ok(Some("sum".to_string()))))
        .0
    {
        CollapseAction::Collapse { summary } => assert_eq!(summary.as_deref(), Some("sum")),
        other => panic!("{other:?}"),
    }
    let (action, printed) = run.step(&CollapseEvent::Collapsed(Ok(CollapseResult {
        child_id: Some("c".to_string()),
        node_id: Some("n".to_string()),
    })));
    assert!(matches!(
        action,
        CollapseAction::Finish(CommandOutcome::Handled)
    ));
    assert_eq!(
        printed,
        vec![
            "collapsed s into node n (child session c)",
            "summarized with the current model before collapsing",
            "--adopt: ownership migration requested",
            "resume with: theway --resume-id c"
        ]
    );
    assert!(matches!(
        run.step(&CollapseEvent::RepoOpened(Ok(()))).0,
        CollapseAction::Wait
    ));
}

#[test]
fn a_busy_session_is_collapsed_without_the_model() {
    let mut run = collapse(&[]);
    to_summary(&mut run);
    let (action, printed) = run.step(&CollapseEvent::SummaryRead {
        existing: Err("lost".to_string()),
        streaming: true,
    });
    assert!(matches!(action, CollapseAction::Collapse { summary: None }));
    assert_eq!(printed, vec![COLLAPSE_BUSY_LINE]);
    let (action, printed) = run.step(&CollapseEvent::Collapsed(Err("e".to_string())));
    assert!(printed.is_empty());
    match action {
        CollapseAction::Finish(o) => assert_eq!(error(o), "collapse failed: e"),
        other => panic!("{other:?}"),
    }
}

#[test]
fn an_existing_summary_is_used_and_a_failed_one_passed_over() {
    let mut run = collapse(&[]);
    to_summary(&mut run);
    match run
        .step(&CollapseEvent::SummaryRead {
            existing: Ok(Some("old".to_string())),
            streaming: true,
        })
        .0
    {
        CollapseAction::Collapse { summary } => assert_eq!(summary.as_deref(), Some("old")),
        other => panic!("{other:?}"),
    }
    let mut run = collapse(&[]);
    to_summary(&mut run);
    run.step(&CollapseEvent::SummaryRead {
        existing: Ok(None),
        streaming: false,
    });
    let (action, printed) = run.step(&CollapseEvent::ModelAnswered(Err("e".to_string())));
    assert!(matches!(action, CollapseAction::Collapse { summary: None }));
    assert_eq!(
        printed,
        vec!["summarize before collapse failed: e; rolling transcript fallback used"]
    );
    assert!(!run.summarized);
}

#[test]
fn a_collapse_that_cannot_begin() {
    assert_eq!(
        error(
            CollapseCommand
                .start(&args(&["a", "b"]), "s")
                .unwrap_err()
        ),
        "usage: /collapse [name] [--adopt]"
    );
    let finished = |event: CollapseEvent, opened: bool| {
        let mut run = collapse(&[]);
        if opened {
            run.step(&CollapseEvent::RepoOpened(Ok(())));
        }
        match run.step(&event).0 {
            CollapseAction::Finish(o) => error(o),
            other => panic!("{other:?}"),
        }
    };
    assert_eq!(
        finished(CollapseEvent::RepoOpened(Err("e".to_string())), false),
        "open session repo: e"
    );
    assert_eq!(
        finished(CollapseEvent::SessionOpened(Ok(false)), true),
        "no session matches id s"
    );
    assert_eq!(
        finished(CollapseEvent::SessionOpened(Err("e".to_string())), true),
        "open session: e"
    );
}

#[test]
fn transcripts_are_shared() {
    let c = ShareCommand;
    assert_eq!(gh_bin(&None), "gh");
    assert_eq!(gh_bin(&Some("x".to_string())), "x");
    let dir = c.directory("/tmp", "s");
    assert_eq!(dir, "/tmp/theway-share-s");
    assert_eq!(c.file(&dir), "/tmp/theway-share-s/transcript.md");
    assert_eq!(
        c.gist_args(&args(&["--public"]), "s", "f"),
        vec!["gist", "create", "--public", "--desc", "theway session s", "f"]
    );
    assert_eq!(
        c.gist_args(&args(&[]), "s", "f"),
        vec!["gist", "create", "--desc", "theway session s", "f"]
    );
    let refused = |end: ShareEnd| error(c.report(&end).outcome);
    assert_eq!(
        refused(ShareEnd::NoDirectory("e".to_string())),
        "share tmp dir: e"
    );
    assert_eq!(
        refused(ShareEnd::NotSaved("e".to_string())),
        "save transcript: e"
    );
    assert_eq!(
        refused(ShareEnd::NotSpawned("e".to_string())),
        "gh gist create failed to spawn: e. Is gh on PATH?"
    );
    assert_eq!(
        refused(ShareEnd::Exited {
            code: None,
            stderr: " no auth\n".to_string()
        }),
        "gh gist create exited -1: no auth"
    );
    assert_eq!(
        lines(c.report(&ShareEnd::Succeeded {
            stdout: "https://gist\n".to_string()
        })),
        vec!["shared: https://gist"]
    );
}
