use theway_daemon::json::Json;
use theway_daemon::lsp::{
    did_open_params, frame_header, initialize_params, notification, response_result,
    timeout_message, Diagnostic, DiagnosticRange, FrameHeader, HeaderStep, Incoming, LspState,
    Position,
};
use theway_daemon::lsp_supervisor::{
    attached, file_uri, render_diagnostics, LanguageConfig, LspConfig, LspSupervisor, OpenPlan,
};
use theway_daemon::session_tree::UserBlock;

fn parse(s: &str) -> Json {
    match Json::parse(s) {
        Ok(v) => v,
        Err(e) => panic!("{e}"),
    }
}

fn language(id: &str, extensions: &[&str], command: &str) -> LanguageConfig {
    LanguageConfig {
        id: id.to_string(),
        extensions: extensions.iter().map(|s| s.to_string()).collect(),
        command: command.to_string(),
        args: Vec::new(),
    }
}

fn diagnostic(line: u32, severity: Option<u8>) -> Diagnostic {
    Diagnostic {
        range: DiagnosticRange {
            start: Position { line, character: 2 },
            end: Position { line, character: 3 },
        },
        severity,
        message: "m".to_string(),
        source: None,
    }
}

#[test]
fn frames_are_read_back() {
    assert_eq!(frame_header(42), "Content-Length: 42\r\n\r\n");
    let mut h = FrameHeader::new();
    assert_eq!(h.line("Content-Length: 42\r\n"), HeaderStep::More);
    assert_eq!(h.line("Content-Type: x\r\n"), HeaderStep::More);
    assert_eq!(h.line("\r\n"), HeaderStep::Body(42));
    let mut h = FrameHeader::new();
    assert_eq!(h.line("X: 1\r\n"), HeaderStep::More);
    assert_eq!(h.line("\n"), HeaderStep::Missing);
    let mut h = FrameHeader::new();
    h.line("Content-Length: 5\r\n");
    h.line("Content-Length: five\r\n");
    assert_eq!(h.line("\r\n"), HeaderStep::Missing);
}

#[test]
fn messages_are_built() {
    assert_eq!(
        notification("initialized", Some(Json::object())).render(),
        r#"{"jsonrpc":"2.0","method":"initialized","params":{}}"#
    );
    assert_eq!(
        notification("exit", None).render(),
        r#"{"jsonrpc":"2.0","method":"exit","params":null}"#
    );
    let init = initialize_params(7, "file:///w", "1.0");
    assert_eq!(init.uint_field("processId"), Some(7));
    assert_eq!(init.text_member("rootUri").as_deref(), Some("file:///w"));
    assert_eq!(
        did_open_params("u", "rust", "fn").render(),
        r#"{"textDocument":{"languageId":"rust","text":"fn","uri":"u","version":1}}"#
    );
    assert_eq!(
        timeout_message("shutdown"),
        "LSP request shutdown timed out after 15s"
    );
}

#[test]
fn answers_go_to_their_requests_once() {
    let mut state = LspState::new();
    let (id, message) = state.request("m", None);
    assert_eq!(id, 1);
    assert_eq!(message.uint_field("id"), Some(1));
    let (other, _) = state.request("n", None);
    assert_eq!(other, 2);
    let answer = parse(r#"{"id":1,"result":{"a":1}}"#);
    assert!(matches!(state.receive(&answer), Incoming::Answer(1)));
    assert!(matches!(state.receive(&answer), Incoming::Ignored));
    assert_eq!(response_result(&answer).unwrap().render(), r#"{"a":1}"#);
    assert_eq!(
        response_result(&parse(r#"{"id":1,"error":{"code":2}}"#)).unwrap_err(),
        r#"LSP server error: {"code":2}"#
    );
    assert!(matches!(
        response_result(&parse(r#"{"id":1}"#)),
        Ok(Json::Null)
    ));
    state.give_up(2);
    assert!(matches!(
        state.receive(&parse(r#"{"id":2,"result":1}"#)),
        Incoming::Ignored
    ));
}

#[test]
fn pushed_diagnostics_replace_those_before() {
    let mut state = LspState::new();
    match state.receive(&parse(
        r#"{"method":"textDocument/publishDiagnostics","params":{"uri":"u"}}"#,
    )) {
        Incoming::Diagnostics(p) => assert_eq!(p.text_member("uri").as_deref(), Some("u")),
        other => panic!("{other:?}"),
    }
    assert!(matches!(
        state.receive(&parse(r#"{"method":"window/log","params":{}}"#)),
        Incoming::Ignored
    ));
    assert!(state.diagnostics_for("u").is_empty());
    state.record("u".to_string(), vec![diagnostic(0, Some(1)), diagnostic(1, None)]);
    state.record("u".to_string(), vec![diagnostic(4, Some(2))]);
    let d = state.diagnostics_for("u");
    assert_eq!(d.len(), 1);
    assert_eq!(d[0].range.start.line, 4);
}

#[test]
fn the_project_lays_its_languages_over_the_users() {
    let user = LspConfig {
        language: vec![language("rust", &["rs"], "old"), language("go", &["go"], "gopls")],
    };
    let project = LspConfig {
        language: vec![
            language("rust", &["rs"], "new"),
            language("web", &["ts", "go"], "tsls"),
        ],
    };
    let all = LspConfig::load(&Some(user), &Some(project));
    let ids: Vec<&str> = all.language.iter().map(|l| l.id.as_str()).collect();
    assert_eq!(ids, vec!["rust", "go", "web"]);
    assert_eq!(all.language[0].command, "new");
    assert!(LspConfig::load(&None, &None).language.is_empty());

    let mut s = LspSupervisor::from_config("/w", &all);
    assert_eq!(s.cwd_uri, "file:///w");
    assert!(!s.is_empty());
    assert_eq!(s.language_count(), 2);
    match s.open_plan("/w/a.go") {
        OpenPlan::Open { language, uri } => {
            assert_eq!(language.id, "web");
            assert_eq!(uri, file_uri("/w/a.go"));
            s.opened(uri);
        }
        other => panic!("{other:?}"),
    }
    assert!(matches!(s.open_plan("/w/a.go"), OpenPlan::Ready { .. }));
    assert!(matches!(s.open_plan("/w/a.txt"), OpenPlan::Unhandled));
    assert!(matches!(s.open_plan("/w/Makefile"), OpenPlan::Unhandled));
    let args = parse(r#"{"path":"/w/a.rs"}"#);
    assert_eq!(s.edited_path("edit", &args).as_deref(), Some("/w/a.rs"));
    assert!(s.edited_path("read", &args).is_none());
    let none = LspSupervisor::from_config("/w", &LspConfig::default());
    assert!(none.is_empty());
    assert_eq!(none.language_count(), 0);
    assert!(none.edited_path("edit", &args).is_none());
}

#[test]
fn diagnostics_are_shown_up_to_a_limit() {
    assert!(attached("/a", &Vec::new()).is_none());
    let few = vec![diagnostic(0, Some(1)), diagnostic(9, None)];
    assert_eq!(
        render_diagnostics("/a", &few),
        "\n\nLSP diagnostics for /a:\n  [error] 1:3: m\n  [diag] 10:3: m\n"
    );
    let many: Vec<Diagnostic> = (0..23).map(|i| diagnostic(i, Some(3))).collect();
    match attached("/a", &many) {
        Some(UserBlock::Text(t)) => {
            assert!(t.ends_with("  [info] 20:3: m\n  (3 more)\n"));
        }
        other => panic!("{other:?}"),
    }
}
