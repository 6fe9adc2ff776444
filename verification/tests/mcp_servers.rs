use theway_daemon::mcp_layers::{
    connect_servers, merge_mcp_layers, parse_mcp_diagnostic, ConnectResult, ConnectedMcpServer,
    LoadedMcp, McpHook, McpLayer, McpProvisionState, McpTool,
};
use theway_daemon::mcp_loader::{
    merge_configs, plan_stdio, plan_streamable_http, resolve_http_auth, server_config_from_wire,
    validate_unique_names, ConfigRead, HttpAuthConfig, HttpMcpAuth, McpConfig, ReconnectConfig,
    ServerConfig, ServerKind, WireReconnect, WireServer,
};

fn stdio(name: &str, command: &str) -> ServerConfig {
    ServerConfig {
        name: name.to_string(),
        kind: ServerKind::Stdio,
        command: Some(command.to_string()),
        args: Vec::new(),
        endpoint: None,
        auth: None,
        request_timeout_ms: None,
        sse_idle_timeout_ms: None,
        body_cap_bytes: None,
        reconnect: None,
        inject_summary: false,
        inject_and_run: false,
    }
}

fn http(name: &str) -> ServerConfig {
    ServerConfig {
        kind: ServerKind::StreamableHttp,
        command: None,
        endpoint: Some("https://host/mcp".to_string()),
        ..stdio(name, "")
    }
}

fn file(servers: Vec<ServerConfig>) -> ConfigRead {
    ConfigRead::Parsed(McpConfig { server: servers })
}

fn bearer(kind: &str, token_ref: Option<&str>) -> HttpAuthConfig {
    HttpAuthConfig { kind: kind.to_string(), token_keychain_ref: token_ref.map(str::to_string) }
}

fn connected(name: &str, id: u64, tools: &[&str]) -> ConnectedMcpServer {
    ConnectedMcpServer {
        name: name.to_string(),
        tools: tools.iter().map(|t| McpTool { id, name: t.to_string() }).collect(),
        hook: McpHook { id, label: format!("mcp:{name}") },
    }
}

fn names(v: &[&str]) -> Vec<String> {
    v.iter().map(|s| s.to_string()).collect()
}

#[test]
fn project_servers_override_by_name() {
    let user = file(vec![stdio("a", "user-a"), stdio("b", "user-b")]);
    let project = file(vec![stdio("c", "project-c"), stdio("a", "project-a")]);
    let (servers, notes) = merge_configs("/u", &user, "/p", &project);
    assert!(notes.is_empty());
    let seen: Vec<(String, Option<String>)> =
        servers.into_iter().map(|s| (s.name, s.command)).collect();
    assert_eq!(
        seen,
        vec![
            ("a".to_string(), Some("project-a".to_string())),
            ("b".to_string(), Some("user-b".to_string())),
            ("c".to_string(), Some("project-c".to_string())),
        ]
    );
}

#[test]
fn unreadable_config_files_are_noted() {
    let (servers, notes) = merge_configs(
        "/u/mcp.toml",
        &ConfigRead::ReadFailed("denied".to_string()),
        "/p/mcp.toml",
        &ConfigRead::ParseFailed("line 1".to_string()),
    );
    assert!(servers.is_empty());
    assert_eq!(
        notes,
        vec![
            "mcp config (user, /u/mcp.toml): read failed: denied".to_string(),
            "mcp config (project, /p/mcp.toml): parse failed: line 1".to_string(),
        ]
    );
    let (servers, notes) =
        merge_configs("/u", &ConfigRead::Missing, "/p", &file(vec![stdio("a", "x")]));
    assert_eq!(servers.len(), 1);
    assert!(notes.is_empty());
}

#[test]
fn wire_servers_are_converted() {
    let wire = |kind: &str| WireServer {
        name: "w".to_string(),
        kind: kind.to_string(),
        command: None,
        args: names(&["-x"]),
        endpoint: Some("e".to_string()),
        auth: Some(bearer("bearer", Some("ref"))),
        request_timeout_ms: Some(1),
        sse_idle_timeout_ms: Some(2),
        body_cap_bytes: Some(3),
        reconnect: Some(WireReconnect { initial_ms: Some(4), max_ms: None, max_attempts: Some(5) }),
        inject_summary: true,
        inject_and_run: false,
    };
    let c = server_config_from_wire(&wire("streamable_http"));
    assert!(matches!(c.kind, ServerKind::StreamableHttp));
    assert_eq!(c.name, "w");
    assert_eq!(c.args, names(&["-x"]));
    assert_eq!(c.endpoint.as_deref(), Some("e"));
    assert_eq!(c.auth.map(|a| (a.kind, a.token_keychain_ref)), Some(("bearer".to_string(), Some("ref".to_string()))));
    assert_eq!((c.request_timeout_ms, c.sse_idle_timeout_ms, c.body_cap_bytes), (Some(1), Some(2), Some(3)));
    let r = c.reconnect.unwrap();
    assert_eq!((r.initial_ms, r.max_ms, r.max_attempts), (Some(4), None, Some(5)));
    assert!(c.inject_summary && !c.inject_and_run);
    assert!(matches!(server_config_from_wire(&wire("other")).kind, ServerKind::Stdio));
}

#[test]
fn server_names_are_checked() {
    assert!(validate_unique_names(&vec![stdio("a", "x"), stdio("b", "x")]).is_ok());
    assert_eq!(
        validate_unique_names(&vec![stdio("a", "x"), stdio("  ", "x")]).unwrap_err(),
        "mcp_servers: server name must not be empty"
    );
    assert_eq!(
        validate_unique_names(&vec![stdio("a", "x"), stdio("b", "x"), stdio("a", "y")]).unwrap_err(),
        "mcp_servers: duplicate server name 'a'"
    );
}

#[test]
fn http_credentials_are_resolved() {
    let found = Ok(Some("t0".to_string()));
    assert!(matches!(resolve_http_auth(&None, &Err("locked".to_string())), Ok(HttpMcpAuth::Anonymous)));
    match resolve_http_auth(&Some(bearer("bearer", Some("ref"))), &found) {
        Ok(HttpMcpAuth::Bearer { token }) => assert_eq!(token, "t0"),
        other => panic!("{other:?}"),
    }
    let fault = |auth: HttpAuthConfig, stored: Result<Option<String>, String>| {
        resolve_http_auth(&Some(auth), &stored).unwrap_err()
    };
    assert_eq!(
        fault(bearer("basic", None), Err("locked".to_string())),
        "failed to load local credential store: locked; run /login <configured-token-ref>"
    );
    assert_eq!(
        fault(bearer("basic", Some("ref")), Ok(None)),
        "unsupported streamable_http auth kind; expected bearer"
    );
    assert_eq!(fault(bearer("bearer", None), Ok(None)), "bearer auth requires token_keychain_ref");
    assert_eq!(
        fault(bearer("bearer", Some("ref")), Ok(None)),
        "configured bearer credential was not found; run /login <configured-token-ref>"
    );
}

#[test]
fn stdio_servers_are_planned() {
    let mut s = stdio("s", "run");
    s.args = names(&["-a", "b"]);
    let p = plan_stdio(&s).unwrap();
    assert_eq!((p.command, p.args), ("run".to_string(), names(&["-a", "b"])));
    let mut s = stdio("s", "run");
    s.endpoint = Some("e".to_string());
    assert_eq!(
        plan_stdio(&s).unwrap_err(),
        "stdio MCP server 's' must not set endpoint or auth; remove streamable_http fields"
    );
    let mut s = stdio("s", "run");
    s.command = None;
    assert_eq!(plan_stdio(&s).unwrap_err(), "stdio MCP server 's' missing command");
}

#[test]
fn http_servers_are_planned() {
    let none: Result<Option<String>, String> = Ok(None);
    let mut s = http("h");
    s.reconnect = Some(ReconnectConfig { initial_ms: None, max_ms: None, max_attempts: Some(3) });
    s.request_timeout_ms = Some(10);
    let p = plan_streamable_http(&s, &none).unwrap();
    assert_eq!(p.endpoint, "https://host/mcp");
    assert!(matches!(p.auth, HttpMcpAuth::Anonymous));
    assert_eq!(p.request_timeout_ms, Some(10));
    let r = p.reconnect.unwrap();
    assert_eq!((r.initial_ms, r.max_ms, r.max_attempts), (500, 30_000, Some(3)));

    let fault = |change: &dyn Fn(&mut ServerConfig)| {
        let mut s = http("h");
        change(&mut s);
        plan_streamable_http(&s, &Ok(None)).unwrap_err()
    };
    assert_eq!(
        fault(&|s| s.args = vec!["x".to_string()]),
        "streamable_http MCP server 'h' must set endpoint, not command/args"
    );
    assert_eq!(fault(&|s| s.endpoint = None), "streamable_http MCP server 'h' missing endpoint");
    assert_eq!(
        fault(&|s| s.auth = Some(bearer("bearer", None))),
        "bearer auth requires token_keychain_ref"
    );
    assert_eq!(
        fault(&|s| s.request_timeout_ms = Some(0)),
        "streamable_http MCP server 'h' request_timeout_ms must be positive"
    );
    assert_eq!(
        fault(&|s| s.sse_idle_timeout_ms = Some(0)),
        "streamable_http MCP server 'h' sse_idle_timeout_ms must be positive"
    );
    assert_eq!(
        fault(&|s| s.body_cap_bytes = Some(0)),
        "streamable_http MCP server 'h' body_cap_bytes must be positive"
    );
    assert_eq!(
        fault(&|s| s.reconnect =
            Some(ReconnectConfig { initial_ms: None, max_ms: Some(0), max_attempts: None })),
        "streamable_http MCP server 'h' reconnect delays must be positive"
    );
}

#[test]
fn diagnostics_are_read_back() {
    assert_eq!(
        parse_mcp_diagnostic("mcp server 'a b' failed: no: route"),
        ("a b".to_string(), "no: route".to_string())
    );
    assert_eq!(
        parse_mcp_diagnostic("mcp config (user, /u/mcp.toml): read failed: denied"),
        ("mcp.toml (user)".to_string(), "read failed: denied".to_string())
    );
    assert_eq!(parse_mcp_diagnostic("other"), ("mcp".to_string(), "other".to_string()));
}

#[test]
fn connecting_gives_a_layer_of_what_connected() {
    let mut a = stdio("a", "x");
    a.inject_summary = true;
    let mut b = stdio("b", "x");
    b.inject_and_run = true;
    let results: Vec<ConnectResult> = vec![
        Ok((
            vec![McpTool { id: 7, name: "t".to_string() }],
            McpHook { id: 8, label: "mcp:a".to_string() },
        )),
        Err("refused".to_string()),
    ];
    let (layer, diagnostics) = connect_servers(&vec![a, b], results);
    assert_eq!(layer.server_names(), names(&["a"]));
    assert_eq!(layer.tool_names(), names(&["t"]));
    assert_eq!(layer.hooks().len(), 1);
    assert_eq!(layer.inject_summary, names(&["a"]));
    assert!(layer.inject_and_run.is_empty());
    assert_eq!(layer.errors, vec![("b".to_string(), "refused".to_string())]);
    assert_eq!(diagnostics, names(&["mcp server 'b' failed: refused"]));
}

#[test]
fn session_servers_replace_the_daemons() {
    let daemon = McpLayer {
        servers: vec![connected("a", 1, &["x"]), connected("b", 2, &["y", "z"])],
        inject_summary: names(&["a", "b"]),
        inject_and_run: names(&["a"]),
        errors: vec![("c".to_string(), "down".to_string())],
    };
    // The session's `c` connected, its `a` failed.
    let overlay = McpLayer {
        servers: vec![connected("c", 3, &["w"])],
        inject_summary: Vec::new(),
        inject_and_run: names(&["c"]),
        errors: vec![("a".to_string(), "refused".to_string())],
    };
    let merged = merge_mcp_layers(&daemon, &names(&["a", "c"]), &overlay);
    assert_eq!(merged.server_names(), names(&["b", "c"]));
    assert_eq!(merged.tool_names(), names(&["y", "z", "w"]));
    assert_eq!(merged.inject_summary, names(&["b"]));
    assert_eq!(merged.inject_and_run, names(&["c"]));
    assert_eq!(merged.errors, vec![("a".to_string(), "refused".to_string())]);
    let same = merge_mcp_layers(&daemon, &Vec::new(), &McpLayer::default());
    assert_eq!(same.server_names(), daemon.server_names());
    assert_eq!(same.errors, daemon.errors);
}

#[test]
fn provisioned_servers_replace_each_other() {
    let mut state = McpProvisionState::default();
    assert!(state.layer().servers.is_empty());
    let layer = McpLayer {
        servers: vec![connected("a", 1, &["x", "y"])],
        inject_summary: names(&["a"]),
        inject_and_run: Vec::new(),
        errors: Vec::new(),
    };
    state.replace_connection_result(vec![stdio("a", "x")], layer);
    assert_eq!(state.server_names, names(&["a"]));
    assert_eq!(state.tool_names, names(&["x", "y"]));
    assert_eq!(state.configs.len(), 1);
    state.mark_hooks_registered();
    state.mark_hooks_registered();
    assert_eq!(state.registered_labels, names(&["mcp:a"]));
    assert_eq!(state.layer().inject_summary, names(&["a"]));
    state.replace_connection_result(Vec::new(), LoadedMcp::empty().layer);
    assert!(state.server_names.is_empty());
    assert!(state.registered_labels.is_empty());
}
