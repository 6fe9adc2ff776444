use theway_daemon::bug_report::{
    bug_report_outcome, build, default_dest, model_label, tail_of_log, BugReportEnd, DiagInputs,
};
use theway_daemon::commands::auth::{
    LoginCommand, LogoutCommand, LogoutEnd, SessionRow, SessionsCommand, LOGIN_USAGE,
};
use theway_daemon::commands::daemon_set::OtherCommands;
use theway_daemon::commands::misc::{
    help_text, help_text_with_skills, hit_line, message_search_text, thinking_label,
    CompactCommand, DiagCommand, FindCommand, HistoryCommand, PromptTemplate, SessionFile,
    TemplateCommand, WebConnectCommand, WebDisconnectCommand, NO_TEMPLATES,
};
use theway_daemon::commands::{
    args_tail_of, command_info, dispatch, preview_text, reloaded_commands_lines,
    reload_everything, reloaded_skills_line, resolve_skill_shortcut, skill_shortcuts, CommandOutcome, CommandOutput,
    Dispatch, Registry, Report, WebRelayAction,
};
use theway_daemon::file_commands::FileCommand;
use theway_daemon::session_tree::{
    AgentMessage, AssistantMessage, LlmMessage, SessionTreeEntry, UserBlock, UserContent,
};
use theway_daemon::skill::{Skill, SkillSource};

fn args(v: &[&str]) -> Vec<String> {
    v.iter().map(|s| s.to_string()).collect()
}

fn error(outcome: CommandOutcome) -> String {
    match outcome {
        CommandOutcome::Error(e) => e,
        other => panic!("not an error: {other:?}"),
    }
}

fn lines(report: Report) -> Vec<String> {
    assert!(matches!(report.outcome, CommandOutcome::Handled));
    report.lines
}

fn skill(name: &str, source: SkillSource, disabled: bool) -> Skill {
    Skill {
        name: name.to_string(),
        description: format!("about {name}"),
        file_path: format!("/s/{name}/SKILL.md"),
        content: String::new(),
        disable_model_invocation: disabled,
        source,
    }
}

fn prompt_file(name: &str, body: &str) -> FileCommand {
    FileCommand {
        name: name.to_string(),
        description: String::new(),
        body: body.to_string(),
        path: String::new(),
    }
}

fn registry() -> Registry {
    let mut r = Registry::new().with_user_home("/home".to_string());
    r.register(command_info("save", "saves", "[path]"));
    r.set_file_commands(vec![prompt_file("review", "look at $ARGUMENTS")]);
    r
}

fn send(input: &str, name: &str, argv: &[&str], skills: &Vec<Skill>) -> Dispatch {
    dispatch(
        input,
        &Some((name.to_string(), args(argv))),
        &registry(),
        skills,
    )
}

fn prompt(d: Dispatch) -> String {
    match d {
        Dispatch::Done(CommandOutcome::RunAgentPrompt {
            prompt,
            error_context,
        }) => {
            assert!(error_context.is_empty());
            prompt
        }
        other => panic!("not a prompt: {other:?}"),
    }
}

#[test]
fn inputs_go_where_their_names_say() {
    let skills = vec![
        skill("review", SkillSource::User, false),
        skill("lint", SkillSource::User, false),
        skill("off", SkillSource::User, true),
        skill("two", SkillSource::User, false),
        skill("two", SkillSource::Project, false),
    ];
    assert!(matches!(
        send("/help", "help", &[], &skills),
        Dispatch::Help { topic: None }
    ));
    match send("/help x", "help", &["x"], &skills) {
        Dispatch::Help { topic } => assert_eq!(topic.as_deref(), Some("x")),
        other => panic!("{other:?}"),
    }
    assert!(matches!(
        send("/reload", "reload", &[], &skills),
        Dispatch::Reload
    ));
    assert!(matches!(
        send("/save", "save", &[], &skills),
        Dispatch::Run(0)
    ));
    assert_eq!(
        prompt(send("/review  a b ", "review", &["a", "b"], &skills)),
        "look at  a b"
    );
    assert_eq!(prompt(send("/unknown x", "unknown", &["x"], &skills)), "/unknown x");
    match send("/lint a  b", "lint", &["a", "b"], &skills) {
        Dispatch::Skill { line, outcome } => {
            assert_eq!(line, "using skill: lint (user)");
            match outcome {
                CommandOutcome::RunSkillPrompt {
                    prompt,
                    skill,
                    error_context,
                } => {
                    assert_eq!(prompt, "a b");
                    assert_eq!(skill, "lint");
                    assert_eq!(error_context, "skill command failed: ");
                }
                other => panic!("{other:?}"),
            }
        }
        other => panic!("{other:?}"),
    }
    match send("/lint", "lint", &[], &skills) {
        Dispatch::Skill {
            outcome: CommandOutcome::AttachSkill { name },
            ..
        } => assert_eq!(name, "lint"),
        other => panic!("{other:?}"),
    }
    match send("/off", "off", &[], &skills) {
        Dispatch::Done(o) => assert!(error(o).starts_with("skill 'off' is disabled")),
        other => panic!("{other:?}"),
    }
    match send("/two", "two", &[], &skills) {
        Dispatch::Done(o) => assert!(error(o).starts_with("multiple enabled skills named 'two'")),
        other => panic!("{other:?}"),
    }
    match dispatch("hello", &None, &registry(), &skills) {
        Dispatch::Done(o) => assert_eq!(error(o), "not a slash command"),
        other => panic!("{other:?}"),
    }
}

#[test]
fn shortcuts_are_listed_where_they_can_be_run() {
    let skills = vec![
        skill("zeta", SkillSource::User, false),
        skill("alpha", SkillSource::Project, false),
        skill("save", SkillSource::User, false),
        skill("off", SkillSource::User, true),
        skill("twice", SkillSource::User, false),
        skill("twice", SkillSource::Project, false),
    ];
    let listed = skill_shortcuts(&skills, &registry());
    let names: Vec<&str> = listed.iter().map(|s| s.command.as_str()).collect();
    assert_eq!(names, vec!["/alpha", "/zeta"]);
    assert_eq!(
        resolve_skill_shortcut(&skills, &registry(), "alpha").unwrap(),
        Some(1)
    );
    assert_eq!(
        resolve_skill_shortcut(&skills, &registry(), "save").unwrap(),
        None
    );
    assert!(resolve_skill_shortcut(&skills, &registry(), "twice").is_err());
    for s in &skills {
        let runs = matches!(resolve_skill_shortcut(&skills, &registry(), &s.name), Ok(Some(_)));
        assert_eq!(runs, names.contains(&format!("/{}", s.name).as_str()), "{}", s.name);
    }
}

#[test]
fn previews_and_tails() {
    assert_eq!(preview_text("a\nb", 10), "a b");
    assert_eq!(preview_text("abcdef", 3), "abc…");
    assert_eq!(args_tail_of("  /x a b  ", "x"), "a b");
    assert_eq!(args_tail_of("/foo  a  b", "foo"), " a  b");
    assert_eq!(args_tail_of("/foo\ta", "foo"), "\ta");
    assert_eq!(args_tail_of("/x", "x"), "");
    assert_eq!(args_tail_of("", "x"), "");
}

#[test]
fn outputs_keep_their_lines() {
    let mut out = CommandOutput::new();
    out.emit_line("a".to_string());
    out.emit_lines(&args(&["b", "c"]));
    assert_eq!(out.lines, vec!["a", "b", "c"]);
}

#[test]
fn reloads_are_reported() {
    let mut with_description = prompt_file("b", "");
    with_description.description = "does b".to_string();
    assert_eq!(
        reloaded_commands_lines(&vec![prompt_file("a", ""), with_description]),
        vec![
            "reloaded commands: 2 file command(s)",
            "  - /a",
            "  - /b — does b"
        ]
    );
    assert_eq!(
        reloaded_skills_line(3, 0),
        "reloaded skills: 3 loaded, 0 diagnostics"
    );
    assert_eq!(registry().file_command_names(), vec!["/review"]);
    let mut r = registry();
    let report = reload_everything(&mut r, vec![prompt_file("a", "")], &Ok((3, 1)));
    assert_eq!(
        report.lines,
        vec![
            "reloaded commands: 1 file command(s)",
            "  - /a",
            "reloaded skills: 3 loaded, 1 diagnostics"
        ]
    );
    assert!(matches!(report.outcome, CommandOutcome::Handled));
    assert_eq!(r.file_command_names(), vec!["/a"]);
    let report = reload_everything(&mut r, Vec::new(), &Err("no disk".to_string()));
    assert_eq!(report.lines, vec!["reloaded commands: 0 file command(s)"]);
    assert!(matches!(report.outcome, CommandOutcome::Error(e) if e == "reload skills failed: no disk"));
}

#[test]
fn credentials() {
    match LoginCommand.run(&args(&["openai"])) {
        CommandOutcome::LoginSecret {
            provider,
            storage_key,
            recovery_command,
        } => {
            assert_eq!(provider, "openai");
            assert!(storage_key.is_none());
            assert!(recovery_command.is_none());
        }
        other => panic!("{other:?}"),
    }
    assert_eq!(error(LoginCommand.run(&args(&["a", "b"]))), LOGIN_USAGE);
    assert_eq!(
        error(LogoutCommand.provider(&args(&[])).unwrap_err()),
        "usage: /logout <provider>"
    );
    assert_eq!(LogoutCommand.provider(&args(&["a", "b"])).unwrap(), "a");
    assert_eq!(
        lines(LogoutCommand.report("p", &LogoutEnd::Missing)),
        vec!["no credential stored for `p`"]
    );
    assert_eq!(
        lines(LogoutCommand.report("p", &LogoutEnd::Removed)),
        vec!["removed credential for `p`"]
    );
    assert_eq!(
        error(
            LogoutCommand
                .report("p", &LogoutEnd::NotLoaded("e".to_string()))
                .outcome
        ),
        "load auth store: e"
    );
    assert_eq!(
        error(
            LogoutCommand
                .report("p", &LogoutEnd::NotSaved("e".to_string()))
                .outcome
        ),
        "save auth store: e"
    );
}

#[test]
fn sessions_are_listed_as_a_tree() {
    let rows = vec![
        SessionRow {
            prefix: String::new(),
            id: "0123456789abcdefXYZ".to_string(),
            created_at: "today".to_string(),
            badge: None,
            preview: Some("hello".to_string()),
        },
        SessionRow {
            prefix: "└ ".to_string(),
            id: "b".to_string(),
            created_at: "later".to_string(),
            badge: Some("fork".to_string()),
            preview: None,
        },
    ];
    assert_eq!(
        lines(SessionsCommand.run(&Ok(rows))),
        vec![
            "Sessions (tree — forks nested under their parent):",
            "  0123456789abcdef  today  hello",
            "  └ b  later  [fork]  (empty)"
        ]
    );
    assert_eq!(
        lines(SessionsCommand.run(&Ok(Vec::new()))),
        vec!["(no sessions for this cwd)"]
    );
    assert_eq!(
        error(SessionsCommand.run(&Err("e".to_string())).outcome),
        "list sessions: e"
    );
}

fn diag() -> DiagInputs {
    DiagInputs {
        session_id: "s".to_string(),
        model: None,
        thinking: "off".to_string(),
        tool_count: 3,
        skill_count: 0,
        cost_summary: "$0".to_string(),
        log_path: Some("/log".to_string()),
    }
}

#[test]
fn diagnostics_are_shown() {
    let out = lines(DiagCommand.run(&diag()));
    assert_eq!(out[1], "Diagnostic snapshot:");
    assert_eq!(out[3], "  model         (none)");
    assert_eq!(out[8], "  log file      /log");
    assert_eq!(thinking_label(&None), "?");
    assert_eq!(thinking_label(&Some("high".to_string())), "high");
}

#[test]
fn bug_reports_hold_the_end_of_the_log() {
    let log: String = (0..205).map(|i| format!("line {i}\n")).collect();
    let tail = tail_of_log(&log);
    assert!(tail.starts_with("line 5\n"));
    assert!(tail.ends_with("line 204\n"));
    assert_eq!(tail_of_log("a"), "a\n");
    let text = build(
        &diag(),
        "now",
        "1.0",
        &Ok("one\n".to_string()),
        &Err("broken".to_string()),
    );
    assert!(text.starts_with("theway bug report\ngenerated_at: now\ntheway_version: 1.0\n\n"));
    assert!(text.contains("---- log tail (200 lines from /log) ----\none\n\n"));
    assert!(text.ends_with("---- transcript ----\n(cannot render transcript: broken)\n"));
    let unread = build(&diag(), "now", "1.0", &Err("no".to_string()), &Ok("t".to_string()));
    assert!(unread.contains("(cannot read log: no)\n"));
    assert_eq!(default_dest("/b", "x"), "/b/bug-reports/x.txt");
    assert_eq!(model_label("p", "m"), "p:m");
    assert_eq!(
        lines(bug_report_outcome(&BugReportEnd::Written {
            dest: "/d".to_string()
        })),
        vec!["wrote bug report: /d"]
    );
    assert_eq!(
        error(
            bug_report_outcome(&BugReportEnd::NoDirectory {
                parent: "/p".to_string()
            })
            .outcome
        ),
        "bug-report failed: create bug-reports dir /p"
    );
    assert_eq!(
        error(
            bug_report_outcome(&BugReportEnd::NotWritten {
                dest: "/d".to_string()
            })
            .outcome
        ),
        "bug-report failed: write /d"
    );
}

#[test]
fn templates_are_listed_and_run() {
    let templates = vec![PromptTemplate {
        name: "t".to_string(),
        description: Some("d".to_string()),
    }];
    assert_eq!(
        lines(TemplateCommand.run(&args(&[]), &templates)),
        vec!["Loaded templates (1):", "  /template t  d"]
    );
    assert_eq!(
        lines(TemplateCommand.run(&args(&[]), &Vec::new())),
        vec![NO_TEMPLATES]
    );
    match TemplateCommand
        .run(&args(&["t", "a=1", "b=x=y", "a=2"]), &templates)
        .outcome
    {
        CommandOutcome::RunPromptTemplate { name, vars } => {
            assert_eq!(name, "t");
            assert_eq!(vars.text_member("a").as_deref(), Some("2"));
            assert_eq!(vars.text_member("b").as_deref(), Some("x=y"));
        }
        other => panic!("{other:?}"),
    }
    assert_eq!(
        error(
            TemplateCommand
                .run(&args(&["t", "a=1", "b"]), &templates)
                .outcome
        ),
        "expected k=v argument; got: b"
    );
}

#[test]
fn compaction_and_the_relay() {
    assert!(matches!(
        CompactCommand.run(&args(&[])),
        CommandOutcome::RunCompaction { custom: None }
    ));
    match CompactCommand.run(&args(&["keep", "names"])) {
        CommandOutcome::RunCompaction { custom } => {
            assert_eq!(custom.as_deref(), Some("keep names"))
        }
        other => panic!("{other:?}"),
    }
    assert!(matches!(
        WebConnectCommand.run(&args(&[])),
        CommandOutcome::WebRelay(WebRelayAction::Connect)
    ));
    assert!(matches!(
        WebConnectCommand.run(&args(&["status"])),
        CommandOutcome::WebRelay(WebRelayAction::Status)
    ));
    assert_eq!(
        error(WebConnectCommand.run(&args(&["x"]))),
        "unknown /web-connect argument: x"
    );
    assert!(matches!(
        WebDisconnectCommand.run(),
        CommandOutcome::WebRelay(WebRelayAction::Disconnect)
    ));
}

fn entry(message: AgentMessage) -> SessionTreeEntry {
    SessionTreeEntry::Message {
        id: String::new(),
        parent_id: None,
        message,
    }
}

fn said(text: &str) -> AgentMessage {
    AgentMessage::Llm(LlmMessage::User(UserContent::Text(text.to_string())))
}

#[test]
fn sessions_are_searched_whatever_the_case() {
    let files = vec![
        SessionFile {
            path: "/s/one.jsonl".to_string(),
            entries: Some(vec![
                entry(said("Die STRASSE\nend")),
                entry(AgentMessage::Llm(LlmMessage::ToolResult)),
                SessionTreeEntry::Other,
                entry(AgentMessage::Llm(LlmMessage::Assistant(AssistantMessage {
                    texts: args(&["the", "street"]),
                    failed: false,
                    error_message: None,
                }))),
            ]),
        },
        SessionFile {
            path: "/s/two.jsonl".to_string(),
            entries: None,
        },
    ];
    assert_eq!(
        lines(FindCommand.run(&args(&["strasse"]), &Ok(files))),
        vec!["  one  Die STRASSE end", "(1 match(es))"]
    );
    assert_eq!(
        lines(FindCommand.run(&args(&["x"]), &Ok(Vec::new()))),
        vec!["(no matches)"]
    );
    assert!(error(FindCommand.run(&args(&[]), &Ok(Vec::new())).outcome).starts_with("usage: "));
    assert!(hit_line("/s/a.jsonl", "Text", "text", "zzz").is_none());
    let blocks = AgentMessage::Llm(LlmMessage::User(UserContent::Blocks(vec![
        UserBlock::Text("a".to_string()),
        UserBlock::Image,
        UserBlock::Text("b".to_string()),
    ])));
    assert_eq!(message_search_text(&blocks).as_deref(), Some("a b"));
}

#[test]
fn history_shows_the_last_prompts() {
    let entries: Vec<String> = (1..=25).map(|i| format!("p{i}")).collect();
    let all = lines(HistoryCommand.run(&args(&[]), &entries));
    assert_eq!(all.len(), 20);
    assert_eq!(all[0], "  6: p6");
    assert_eq!(
        lines(HistoryCommand.run(&args(&["2"]), &entries)),
        vec!["  24: p24", "  25: p25"]
    );
    assert_eq!(
        lines(HistoryCommand.run(&args(&["x"]), &entries)).len(),
        20
    );
    assert_eq!(
        lines(HistoryCommand.run(&args(&[]), &vec!["y".repeat(201)])),
        vec![format!("  1: {}…", "y".repeat(200))]
    );
    assert_eq!(
        lines(HistoryCommand.run(&args(&[]), &Vec::new())),
        vec!["(no history yet)"]
    );
}

fn helped(topic: &str) -> String {
    help_text_with_skills(
        &registry(),
        &Some(topic.to_string()),
        &vec![skill("lint", SkillSource::User, false)],
        "CATALOG",
        &args(&["m1"]),
    )
}

#[test]
fn help_on_topics() {
    assert_eq!(helped("models"), "CATALOG");
    assert_eq!(helped("/save"), helped("save"));
    assert!(helped("save").contains("saves"));
    assert!(helped("lint").contains("equivalent: /skill lint"));
    assert!(helped("sav").contains("Did you mean"));
    assert!(helped("qqqq").contains("Run /help to list commands"));
    let general = help_text(&registry(), &None, "CATALOG", &args(&["m1"]));
    assert!(general.contains("save"));
    assert_eq!(
        help_text(&registry(), &Some("  ".to_string()), "CATALOG", &args(&["m1"])),
        general
    );
}

#[test]
fn the_commands_of_a_daemon() {
    let info = |name: &str| command_info(name, "", "");
    let others = || OtherCommands {
        skill: info("skill"),
        model: info("model"),
        thinking: info("thinking"),
        cost: info("cost"),
        goal: info("goal"),
        goal_start: info("goal-start"),
        triggers: info("triggers"),
        new_trigger: info("new-trigger"),
        cron: info("cron"),
        inbox: info("inbox"),
    };
    let r = Registry::with_daemon_commands(others());
    let names: Vec<&str> = r.commands.iter().map(|c| c.name.as_str()).collect();
    assert_eq!(names.len(), 28);
    assert_eq!(names[0], "login");
    assert_eq!(names[4], "skill");
    assert!(names.contains(&"fork"));
    let mut sorted = names.clone();
    sorted.sort_unstable();
    sorted.dedup();
    assert_eq!(sorted.len(), names.len());
    assert_eq!(Registry::with_builtins(others()).commands.len(), 28);
}
