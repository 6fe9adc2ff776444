use theway_daemon::builtin_skills::available_builtin_names;
use theway_daemon::commands::misc::PromptTemplate;
use theway_daemon::commands::CommandOutput;
use theway_daemon::executor::ExecutorKind;
use theway_daemon::hooks::{HookPaths, HookSession};
use theway_daemon::json::Json;
use theway_daemon::lsp_supervisor::{LanguageConfig, LspConfig, LspSupervisor};
use theway_daemon::mcp_layers::{
    ConnectResult, ConnectedMcpServer, LoadedMcp, McpHook, McpLayer, McpProvisionState, McpTool,
};
use theway_daemon::mcp_loader::{ServerConfig, ServerKind};
use theway_daemon::model::{CatalogEntry, InputModality, Model};
use theway_daemon::orchestration::resources::{
    engine_count, secrets_to_read, ExtensionPermission, LocalScan, SessionExecutionContext,
    SessionHookResources, SessionMcpResources, SessionProjectResources,
};
use theway_daemon::orchestration::services::DaemonServices;
use theway_daemon::orchestration::session::{
    assemble_session, register_notification_hooks, restored_line, session_api_key, session_runtime,
    tools_before_extensions, BuildAction, BuildEvent, BuildStage, NotificationHook, SessionBuild,
};
use theway_daemon::orchestration::startup::controller_storage::{
    canonical_work_dir, storage_choice, StorageChoice, StorageMonitor,
};
use theway_daemon::orchestration::startup::session_assembly::{
    load_mcp_resources, lsp_support, runtime_capabilities, summary_prompt, summary_result,
};
use theway_daemon::orchestration::startup::settings::{
    apply_fetched, fetch_decision, launch_thinking, resolve_startup_model, seed_api_keys,
    startup_config_from_options, startup_model_request, FetchDecision, ModelDefault, StartupConfig,
};
use theway_daemon::orchestration::startup::{
    approves_control_plane, chosen_session, chosen_transport, clears_port_file, control_plane,
    is_own_entry, load_warning, mcp_server_error, port_file_entry, read_session_id, select_session,
    starting_line, CliChoice, ControlPlane, DaemonOptions, DaemonPaths, DaemonTransport,
    FoundEntry, SessionOpening, SessionSelection, HOOKS_FILE, LSP_FILE, MCP_FILE,
};
use theway_daemon::skill::{Skill, SkillSource};
use theway_daemon::skill_overrides::{set_override, switched_skills, SkillOverride};
use theway_daemon::text_map::TextMap;

fn names(v: &[&str]) -> Vec<String> {
    v.iter().map(|s| s.to_string()).collect()
}

fn text(s: &str) -> Option<String> {
    Some(s.to_string())
}

fn skill(name: &str) -> Skill {
    Skill {
        name: name.to_string(),
        description: "d".to_string(),
        file_path: format!("/p/{name}"),
        content: "c".to_string(),
        disable_model_invocation: false,
        source: SkillSource::Project,
    }
}

fn scan(skills: &[&str], notes: &[&str]) -> LocalScan {
    LocalScan {
        skills: skills.iter().map(|s| skill(s)).collect(),
        templates: vec![PromptTemplate { name: "t".to_string(), description: None }],
        diagnostics: names(notes),
    }
}

fn skill_names(v: &[Skill]) -> Vec<String> {
    v.iter().map(|s| s.name.clone()).collect()
}

fn server(name: &str) -> ServerConfig {
    ServerConfig {
        name: name.to_string(),
        kind: ServerKind::Stdio,
        command: text("run"),
        args: Vec::new(),
        endpoint: None,
        auth: None,
        request_timeout_ms: None,
        sse_idle_timeout_ms: None,
        body_cap_bytes: None,
        reconnect: None,
        inject_summary: false,
        inject_and_run: false,
    }
}

fn connected(name: &str, id: u64) -> ConnectedMcpServer {
    ConnectedMcpServer {
        name: name.to_string(),
        tools: vec![McpTool { id, name: format!("{name}_tool") }],
        hook: McpHook { id, label: format!("mcp:{name}") },
    }
}

fn layer(servers: Vec<ConnectedMcpServer>) -> McpLayer {
    McpLayer {
        servers,
        inject_summary: Vec::new(),
        inject_and_run: Vec::new(),
        errors: Vec::new(),
    }
}

fn loaded(list: &[(&str, u64)]) -> LoadedMcp {
    LoadedMcp {
        configs: list.iter().map(|(n, _)| server(n)).collect(),
        layer: layer(list.iter().map(|(n, id)| connected(n, *id)).collect()),
        diagnostics: Vec::new(),
    }
}

fn paths() -> DaemonPaths {
    DaemonPaths {
        base: "/b".to_string(),
        home: "/h".to_string(),
        work_dir: "/w".to_string(),
        extra_skill_dirs: Vec::new(),
    }
}

fn hook_paths() -> HookPaths {
    HookPaths { work_dir: "/w".to_string(), base: "/b".to_string(), home: "/h".to_string() }
}

fn model(provider: &str, id: &str) -> Model {
    Model {
        id: id.to_string(),
        name: id.to_string(),
        api: "openai-responses".to_string(),
        provider: provider.to_string(),
        base_url: "http://own".to_string(),
        reasoning: false,
        thinking_level_map: None,
        input: vec![InputModality::Text],
        context_window: 1,
        max_tokens: 1,
        compat: None,
    }
}

fn options() -> DaemonOptions {
    DaemonOptions {
        paths: paths(),
        transport: DaemonTransport::Grpc,
        host: "127.0.0.1".to_string(),
        port: 0,
        provider: None,
        model: None,
        base_url: None,
        thinking: "off".to_string(),
        session: SessionSelection::New,
        approve_control_plane: false,
        debug: false,
        trigger_poll_secs: None,
        builtin_skills: Vec::new(),
        storage_service_addr: None,
        executor_kind: None,
        no_tgrep: false,
        api_key: None,
        auto_fetch_models: false,
    }
}

fn defaults() -> StartupConfig {
    StartupConfig {
        trigger_poll_secs: 30,
        executor_kind: ExecutorKind::Local,
        tgrep_enabled: true,
        api_key: None,
        auto_fetch_models: false,
        storage_service_addr: None,
        load_local_sources: true,
        thinking_level: None,
        provider: None,
        base_url: None,
        model_default: None,
        builtin_skills: Vec::new(),
        summary_min_chars: None,
    }
}

fn resources() -> SessionProjectResources {
    match SessionProjectResources::load("/b", "mem".to_string(), &Vec::new(), &Vec::new(), true, scan(&["x"], &[]), &Vec::new()) {
        Ok(r) => r,
        Err(e) => panic!("{e:?}"),
    }
}

fn context(mcp: SessionMcpResources) -> SessionExecutionContext {
    SessionExecutionContext::new(
        "s".to_string(),
        "/w".to_string(),
        text("/real"),
        paths(),
        ExecutorKind::Local,
        None,
        "off".to_string(),
        resources(),
        mcp,
        SessionHookResources::load(&None, &hook_paths()),
    )
}

#[test]
fn services_begin_fresh() {
    let mut s = DaemonServices::new();
    assert!(s.sessions.get("a").is_none());
    assert!(s.install_activator().is_ok());
    assert_eq!(s.install_activator().unwrap_err(), "session activator already installed");
    assert_eq!(s.trigger_poll_secs, None);
    s.set_poll_interval_secs(15);
    s.install_session("a", "/w", 7);
    assert_eq!(s.trigger_poll_secs, Some(15));
    assert_eq!(s.launcher_of("a"), Some((7, "/w".to_string())));
    assert_eq!(s.launcher_of("b"), None);
    assert_eq!(s.session_dir("a", "/start"), "/w");
    assert_eq!(s.session_dir("b", "/start"), "/start");
    s.install_session("a", "/v", 8);
    assert_eq!(s.launcher_of("a"), Some((8, "/v".to_string())));
    let s = s.with_tgrep_enabled(false).with_tgrep_enabled(true);
    assert!(!s.tgrep_enabled);
    let mut keys: TextMap<String> = TextMap::new();
    keys.insert("p".to_string(), "k".to_string());
    let mut out = CommandOutput::new();
    out.emit_line("hi".to_string());
    let s = s.with_configured_api_keys(keys).with_command_output(out);
    assert_eq!(s.configured_api_keys.get("p").map(String::as_str), Some("k"));
    assert_eq!(s.command_output.lines, names(&["hi"]));
}

fn off(name: &str) -> Vec<SkillOverride> {
    let source = skill(name).source;
    vec![SkillOverride { name: name.to_string(), source, enabled: false }]
}

#[test]
fn skills_are_switched_on_and_off() {
    let user = || Skill { source: SkillSource::User, ..skill("a") };
    let off_in_project = set_override(Vec::new(), "a", SkillSource::Project, false);
    let r = switched_skills(vec![skill("a"), user(), skill("b")], &off_in_project);
    let state: Vec<bool> = r.iter().map(|s| s.disable_model_invocation).collect();
    assert_eq!(state, vec![true, false, false]);
    let on_again = set_override(off_in_project, "a", SkillSource::Project, true);
    assert_eq!(on_again.len(), 1);
    let r = switched_skills(r, &on_again);
    assert!(r.iter().all(|s| !s.disable_model_invocation));
    let r = switched_skills(r, &off("c"));
    assert!(r.iter().all(|s| !s.disable_model_invocation));
}

#[test]
fn project_resources_merge_builtins_with_local_sources() {
    let builtin = available_builtin_names().remove(0);
    let load = |local: bool| {
        SessionProjectResources::load("/b", "m".to_string(), &vec![builtin.clone()], &Vec::new(), local, scan(&["x"], &["note"]), &off("x"))
            .unwrap()
    };
    let with_local = load(true);
    assert_eq!(skill_names(&with_local.skills), vec![builtin.clone(), "x".to_string()]);
    assert_eq!(with_local.templates.len(), 1);
    assert_eq!((with_local.memory_block.as_str(), with_local.memory_dir.as_str()), ("m", "/b/memory"));
    let (again, notes) = with_local.reload(&scan(&["y"], &["later"]), &off("y"));
    assert_eq!(skill_names(&again), vec![builtin.clone(), "y".to_string()]);
    assert!(with_local.skills[1].disable_model_invocation);
    assert!(!again[0].disable_model_invocation && again[1].disable_model_invocation);
    assert_eq!(notes, names(&["later"]));

    let mut without = load(false);
    assert_eq!(skill_names(&without.skills), vec![builtin.clone()]);
    assert!(without.templates.is_empty());
    without.provisioned_skills.push(skill("given"));
    assert!(!without.skills[0].disable_model_invocation);
    let (again, notes) = without.reload(&scan(&["y"], &["later"]), &off("y"));
    assert_eq!(skill_names(&again), vec![builtin, "given".to_string()]);
    assert!(again.iter().all(|s| !s.disable_model_invocation));
    assert!(notes.is_empty());

    let unknown =
        SessionProjectResources::load("/b", String::new(), &names(&["zz"]), &Vec::new(), true, scan(&[], &[]), &Vec::new());
    match unknown {
        Err(e) => assert_eq!(e.unknown, names(&["zz"])),
        Ok(_) => panic!("enabled"),
    }
}

#[test]
fn session_servers_stand_over_the_daemons() {
    let shared = McpProvisionState::default();
    let mut mcp = SessionMcpResources::from_loaded(loaded(&[("a", 1), ("b", 2)]));
    let c = mcp.capabilities(&shared);
    assert_eq!((c.servers, c.tools, c.notification_hooks), (2, 2, 2));
    assert_eq!(c.server_names, names(&["a", "b"]));
    let results: Vec<ConnectResult> = vec![Err("refused".to_string())];
    let notes = mcp.install_session_servers(vec![server("a")], results, &shared);
    assert_eq!(notes, names(&["mcp server 'a' failed: refused"]));
    let c = mcp.capabilities(&shared);
    assert_eq!(c.server_names, names(&["b"]));
    assert_eq!(c.tool_names, names(&["b_tool"]));
    assert_eq!((c.servers, c.tools, c.notification_hooks), (1, 1, 1));
    assert_eq!(c.errors, vec![("a".to_string(), "refused".to_string())]);
    let inputs = mcp.build_inputs(&shared);
    assert_eq!(inputs.tools.len(), 1);
    assert_eq!(mcp.build_inputs(&shared).hooks.len(), 1);
}

#[test]
fn the_first_build_takes_the_hooks() {
    let shared = McpProvisionState::default();
    let mut mcp = SessionMcpResources::from_loaded(loaded(&[("a", 1)]));
    assert_eq!(mcp.build_inputs(&shared).hooks.len(), 1);
    let second = mcp.build_inputs(&shared);
    assert_eq!((second.hooks.len(), second.tools.len()), (0, 1));
    assert_eq!(mcp.capabilities(&shared).notification_hooks, 1);

    let mut provided = load_mcp_resources(false, loaded(&[("a", 1)]));
    assert!(provided.provisioned);
    assert_eq!(provided.capabilities(&shared).servers, 0);
    let mut filled = McpProvisionState::default();
    filled.replace_connection_result(vec![server("g")], layer(vec![connected("g", 9)]));
    assert_eq!(provided.capabilities(&filled).server_names, names(&["g"]));
    assert_eq!(provided.build_inputs(&filled).hooks.len(), 1);
    assert_eq!(provided.build_inputs(&filled).hooks.len(), 1);
    assert_eq!(provided.daemon_layer(&filled).server_names(), names(&["g"]));
}

#[test]
fn extensions_are_given_what_they_may_have() {
    assert_eq!(engine_count(None), 1);
    assert_eq!(engine_count(Some(2)), 2);
    assert_eq!(engine_count(Some(64)), 4);
    let permissions = vec![
        ExtensionPermission::SecretsRead("a".to_string()),
        ExtensionPermission::Other,
        ExtensionPermission::SecretsRead("b".to_string()),
    ];
    assert_eq!(secrets_to_read(&permissions), names(&["a", "b"]));
}

#[test]
fn sessions_work_in_the_canonical_directory() {
    let ctx = context(SessionMcpResources::from_loaded(LoadedMcp::empty()));
    assert_eq!((ctx.cwd.as_str(), ctx.paths.work_dir.as_str()), ("/real", "/real"));
    assert_eq!(ctx.paths.base, "/b");
    assert_eq!(SessionExecutionContext::work_dir("/x", text("/y")).unwrap(), "/y");
    assert_eq!(
        SessionExecutionContext::work_dir("/x", None).unwrap_err(),
        "canonicalize work dir /x"
    );
    let hooks = ctx.hooks.loaded_hooks(&HookSession {
        session_id: "s".to_string(),
        model: None,
        thinking_level: None,
    });
    assert_eq!((hooks.runner.session_id.as_str(), hooks.runner.len()), ("s", 0));
}

#[test]
fn sessions_are_put_together() {
    let shared = McpProvisionState::default();
    let mut ctx = context(SessionMcpResources::from_loaded(loaded(&[("a", 1)])));
    let assembly = assemble_session(&mut ctx, &names(&["read"]), &None, &shared);
    assert_eq!(assembly.tool_names, names(&["read", "a_tool"]));
    assert!(assembly.system_prompt.contains("- Files: read\n- Other: a_tool"));
    assert!(assembly.system_prompt.contains("Current working directory: /real\n<memory>\nmem\n</memory>"));
    assert_eq!(assembly.registrations.len(), 3);
    assert!(matches!(&assembly.registrations[0], NotificationHook::Mcp(h) if h.label == "mcp:a"));
    assert!(matches!(&assembly.registrations[1], NotificationHook::Cron));
    assert!(matches!(&assembly.registrations[2], NotificationHook::DynamicTriggers { cwd } if cwd == "/real"));
    let again = assemble_session(&mut ctx, &names(&["read"]), &Some(names(&["read", "ext"])), &shared);
    assert_eq!(again.tool_names, names(&["read", "ext"]));
    assert_eq!(again.registrations.len(), 2);
    assert_eq!(
        tools_before_extensions(&names(&["read"]), &vec![McpTool { id: 1, name: "m".to_string() }]),
        names(&["read", "m"])
    );
    assert_eq!(register_notification_hooks(Vec::new(), "/w").len(), 2);
    assert_eq!(session_api_key(None, text("ext")).as_deref(), Some("ext"));
    assert_eq!(session_api_key(text("own"), text("ext")).as_deref(), Some("own"));

    let mut build = SessionBuild::build_opened(false);
    build.step(&BuildEvent::MetadataRead(Ok(Json::object().with("id", Json::text("s9")))));
    let runtime = session_runtime(&build, &ctx, &assembly);
    assert_eq!((runtime.session_id.as_str(), runtime.cwd.as_str()), ("s9", "/real"));
    assert!(!runtime.hooks_active);
}

#[test]
fn builds_run_through_their_stages() {
    let meta = || Ok(Json::object().with("id", Json::text("s1")));
    let mut b = SessionBuild::build("s");
    assert!(matches!(b.step(&BuildEvent::Assembled), (BuildAction::Wait, None)));
    assert!(matches!(b.step(&BuildEvent::Opened(Ok(()))), (BuildAction::ReadMetadata, None)));
    assert!(matches!(b.step(&BuildEvent::MetadataRead(meta())), (BuildAction::LoadRuns, None)));
    assert!(matches!(b.step(&BuildEvent::RunsLoaded(Ok(()))), (BuildAction::Install, None)));
    let (action, log) = b.step(&BuildEvent::Installed { restored: names(&["r1", "r2"]) });
    assert!(matches!(action, BuildAction::Assemble));
    assert_eq!(log.unwrap(), "session s1: restored 2 in-flight DAG run(s): r1, r2");
    assert!(matches!(b.step(&BuildEvent::Assembled), (BuildAction::Rehydrate, None)));
    assert!(matches!(b.step(&BuildEvent::Rehydrated(Ok(()))), (BuildAction::StartExtensions, None)));
    assert!(matches!(b.step(&BuildEvent::ExtensionsStarted), (BuildAction::Finish, None)));
    assert_eq!(b.stage, BuildStage::Done);

    let mut d = SessionBuild::build_opened_detached(false);
    assert!(matches!(d.step(&BuildEvent::MetadataRead(meta())), (BuildAction::Assemble, None)));
    assert!(matches!(d.step(&BuildEvent::Assembled), (BuildAction::StartExtensions, None)));
    assert_eq!(restored_line("s", &Vec::new()), None);
}

#[test]
fn builds_fail_with_one_message() {
    let failed = |step: (BuildAction, Option<String>)| match step.0 {
        BuildAction::Fail(m) => m,
        other => panic!("{other:?}"),
    };
    let mut b = SessionBuild::build("s");
    assert_eq!(failed(b.step(&BuildEvent::Opened(Err("gone".to_string())))), "open session s");
    assert_eq!(b.stage, BuildStage::Done);
    let mut b = SessionBuild::build_opened(true);
    assert_eq!(failed(b.step(&BuildEvent::MetadataRead(Err("torn".to_string())))), "torn");
    let mut b = SessionBuild::build_opened(true);
    b.step(&BuildEvent::MetadataRead(Ok(Json::object().with("id", Json::text("s1")))));
    assert_eq!(failed(b.step(&BuildEvent::RunsLoaded(Err("locked".to_string())))), "locked");
    let mut b = SessionBuild::build_opened_detached(true);
    b.step(&BuildEvent::MetadataRead(Ok(Json::object().with("id", Json::text("s1")))));
    b.step(&BuildEvent::Assembled);
    assert_eq!(failed(b.step(&BuildEvent::Rehydrated(Err("bad".to_string())))), "rehydrate session s1");
}

#[test]
fn command_line_is_read() {
    let cli = |http, mcp, resume: Option<&str>, latest, yes| CliChoice {
        http,
        mcp,
        resume_id: resume.map(str::to_string),
        continue_latest: latest,
        yes,
        always_allow: false,
    };
    assert_eq!(chosen_transport(&cli(false, false, None, false, false)), DaemonTransport::Grpc);
    assert_eq!(chosen_transport(&cli(true, false, None, false, false)), DaemonTransport::Http);
    assert_eq!(chosen_transport(&cli(true, true, None, false, false)), DaemonTransport::Mcp);
    assert!(matches!(chosen_session(&cli(false, false, None, false, false)), SessionSelection::New));
    assert!(matches!(chosen_session(&cli(false, false, None, true, false)), SessionSelection::Latest));
    let by_id = chosen_session(&cli(false, false, Some("s"), true, false));
    assert!(matches!(&by_id, SessionSelection::Id(id) if id == "s"));
    assert!(approves_control_plane(&cli(false, false, None, false, true)));
    assert!(!approves_control_plane(&cli(false, false, None, false, false)));
    assert_eq!(control_plane(true), ControlPlane::AllowAll);
    assert_eq!(control_plane(false), ControlPlane::Ask);
    assert!(matches!(select_session(&by_id), (SessionOpening::Resume(Some(id)), true) if id == "s"));
    assert!(matches!(select_session(&SessionSelection::Latest), (SessionOpening::Resume(None), true)));
    assert!(matches!(select_session(&SessionSelection::New), (SessionOpening::CreateLazy, false)));
    assert_eq!(read_session_id(&Ok(Json::object().with("id", Json::text("s")))).unwrap(), "s");
    assert_eq!(read_session_id(&Err("torn".to_string())).unwrap_err(), "torn");
    assert_eq!(paths().with_work_dir("/v".to_string()).work_dir, "/v");
    assert_eq!(paths().user_file(MCP_FILE), "/b/mcp.toml");
    assert_eq!(paths().project_file(HOOKS_FILE), "/w/.theway/hooks.toml");
    assert_eq!(paths().project_file(LSP_FILE), "/w/.theway/lsp.toml");
}

#[test]
fn daemons_publish_where_they_are() {
    assert_eq!(
        starting_line(DaemonTransport::Http, "127.0.0.1", 8080),
        "thewayd starting in http mode on 127.0.0.1:8080"
    );
    assert_eq!(port_file_entry(50051, 4242), "50051 4242");
    assert!(is_own_entry("50051 4242", 4242));
    assert!(!is_own_entry("50051 14242", 4242));
    assert!(!is_own_entry("4242", 4242));
    assert!(!clears_port_file(FoundEntry::Nothing));
    assert!(clears_port_file(FoundEntry::WithoutPid));
    assert!(clears_port_file(FoundEntry::Process { alive: false }));
    assert!(!clears_port_file(FoundEntry::Process { alive: true }));
    assert_eq!(mcp_server_error("closed"), "mcp server: closed");
    assert_eq!(load_warning("cron jobs", "bad"), "cron jobs: bad");
}

#[test]
fn the_daemon_ends_with_its_storage() {
    let mut m = StorageMonitor::new("a:1".to_string(), 2);
    assert!(m.probed(&Ok(())).log.is_empty());
    let first = m.probed(&Err("x".to_string()));
    assert_eq!((first.log, first.stop), (names(&["controller storage probe 1/2 failed at a:1: x"]), false));
    let back = m.probed(&Ok(()));
    assert_eq!(back.log, names(&["controller storage at a:1 recovered after 1 failed probe(s)"]));
    assert!(!m.probed(&Err("x".to_string())).stop);
    let last = m.probed(&Err("y".to_string()));
    assert!(last.stop);
    assert_eq!(
        last.log,
        names(&[
            "controller storage probe 2/2 failed at a:1: y",
            "controller storage at a:1 remained unavailable for 2 consecutive probes; shutting down daemon",
        ])
    );
    assert_eq!(canonical_work_dir("/x", &Ok("/y".to_string()), true).unwrap(), "/y");
    assert_eq!(
        canonical_work_dir("/x", &Ok("/y".to_string()), false).unwrap_err(),
        "work directory is not a directory: /y"
    );
    assert_eq!(canonical_work_dir("/x", &Err("no".to_string()), false).unwrap_err(), "cd into /x");
    assert!(matches!(storage_choice(&None), StorageChoice::Local));
    assert!(matches!(storage_choice(&text("a:1")), StorageChoice::Remote(a) if a == "a:1"));
}

#[test]
fn settings_come_from_options_over_defaults() {
    let s = startup_config_from_options(&options(), defaults()).unwrap();
    assert_eq!((s.trigger_poll_secs, s.executor_kind, s.load_local_sources), (30, ExecutorKind::Local, true));
    let mut o = options();
    o.trigger_poll_secs = Some(5);
    o.executor_kind = text(" Sandbox ");
    o.no_tgrep = true;
    o.api_key = text("k");
    o.auto_fetch_models = true;
    let s = startup_config_from_options(&o, defaults()).unwrap();
    assert_eq!((s.trigger_poll_secs, s.executor_kind), (5, ExecutorKind::Sandbox));
    assert!(!s.load_local_sources && !s.tgrep_enabled && s.auto_fetch_models);
    assert_eq!(s.api_key.as_deref(), Some("k"));
    let mut o = options();
    o.storage_service_addr = text("a:1");
    assert!(!startup_config_from_options(&o, defaults()).unwrap().load_local_sources);
    let mut o = options();
    o.executor_kind = text("Remote");
    assert!(startup_config_from_options(&o, defaults()).unwrap_err().contains("remote"));

    let mut levels = defaults();
    assert_eq!(launch_thinking(&options(), &levels), "off");
    levels.thinking_level = text("low");
    assert_eq!(launch_thinking(&options(), &levels), "low");
    let mut o = options();
    o.thinking = "high".to_string();
    assert_eq!(launch_thinking(&o, &levels), "high");
}

#[test]
fn catalogs_are_fetched_where_they_can_be() {
    let mut keys: TextMap<String> = TextMap::new();
    let mut s = defaults();
    s.api_key = text("k");
    assert_eq!(
        seed_api_keys(&s, &mut keys).unwrap(),
        "`[model] api_key` is set without `[model] provider`; the key is ignored"
    );
    s.provider = text("p");
    assert_eq!(seed_api_keys(&s, &mut keys), None);
    assert_eq!(keys.get("p").map(String::as_str), Some("k"));

    assert!(matches!(fetch_decision(&s, &text("http://x")), FetchDecision::Skip));
    s.auto_fetch_models = true;
    assert!(matches!(fetch_decision(&s, &None), FetchDecision::Warn(w)
        if w == "auto-fetch models: `[model] base_url` (or --base-url) is required"));
    match fetch_decision(&s, &text("http://x")) {
        FetchDecision::Fetch { provider, base_url } => {
            assert_eq!((provider.as_str(), base_url.as_str()), ("p", "http://x"));
        }
        other => panic!("{other:?}"),
    }
    s.provider = None;
    assert!(matches!(fetch_decision(&s, &None), FetchDecision::Warn(w)
        if w == "auto-fetch models: `[model] provider` is required"));

    let failed = apply_fetched(&mut s, "p", "u", &Err("down".to_string()));
    assert_eq!((failed.register, failed.log.as_str()), (false, "auto-fetch models from u: down"));
    let empty = apply_fetched(&mut s, "p", "u", &Ok(Vec::new()));
    assert_eq!((empty.register, empty.log.as_str()), (false, "auto-fetch models from u: empty catalog"));
    let done = apply_fetched(&mut s, "p", "u", &Ok(vec![model("p", "m1"), model("p", "m2")]));
    assert_eq!((done.register, done.log.as_str()), (true, "auto-fetched 2 model(s) from u"));
    assert_eq!(s.model_default.as_ref().map(|d| d.model.as_str()), Some("m1"));
    apply_fetched(&mut s, "p", "u", &Ok(vec![model("p", "m3")]));
    assert_eq!(s.model_default.map(|d| d.model).as_deref(), Some("m1"));
}

#[test]
fn the_startup_model_is_resolved() {
    let mut s = defaults();
    let catalog = vec![CatalogEntry { provider: "p".to_string(), id: "m".to_string() }];
    assert!(resolve_startup_model(&None, &None, &None, &s, None, &catalog).unwrap().is_none());
    s.model_default = Some(ModelDefault { provider: "p".to_string(), model: "m".to_string() });
    s.base_url = text("http://set");
    assert_eq!(startup_model_request(&None, &None, &s), Some(("p".to_string(), "m".to_string())));
    assert_eq!(startup_model_request(&text("q"), &None, &s), None);
    let found = resolve_startup_model(&None, &None, &text("  "), &s, Some(model("p", "m")), &catalog).unwrap().unwrap();
    assert_eq!(found.base_url, "http://set");
    let found = resolve_startup_model(&None, &None, &text(" http://cli "), &s, Some(model("p", "m")), &catalog).unwrap().unwrap();
    assert_eq!(found.base_url, "http://cli");
    s.base_url = None;
    let found = resolve_startup_model(&None, &None, &None, &s, Some(model("p", "m")), &catalog).unwrap().unwrap();
    assert_eq!(found.base_url, "http://own");
    assert_eq!(
        resolve_startup_model(&text("p"), &text("z"), &None, &s, None, &catalog).unwrap_err(),
        "model not found in catalog: provider=p id=z. Candidates: m"
    );
}

#[test]
fn capabilities_are_told() {
    let mcp = SessionMcpResources::from_loaded(loaded(&[("a", 1)]));
    let c = runtime_capabilities(
        &mcp,
        &names(&["read"]),
        names(&["after_tool"]),
        names(&["cron"]),
    );
    assert_eq!((c.hook_points, c.trigger_features), (names(&["after_tool"]), names(&["cron"])));
    assert_eq!((c.mcp_servers, c.mcp_tools, c.mcp_notification_hooks), (1, 1, 1));
    assert_eq!((c.mcp_server_names, c.tool_names), (names(&["a"]), names(&["read"])));
    let language = |id: &str, ext: &str| LanguageConfig {
        id: id.to_string(),
        extensions: names(&[ext]),
        command: "ls".to_string(),
        args: Vec::new(),
    };
    let none = LspSupervisor::from_config("/w", &LspConfig { language: Vec::new() });
    assert_eq!(lsp_support(&none), (0, false));
    let some = LspSupervisor::from_config(
        "/w",
        &LspConfig { language: vec![language("rust", "rs"), language("go", "go")] },
    );
    assert_eq!(lsp_support(&some), (2, true));
}

#[test]
fn thinking_is_summarized_by_an_agent_with_a_model() {
    let m = Some(model("p", "m"));
    assert_eq!(summary_prompt(false, &m, "t").unwrap_err(), "general subagent spec unavailable");
    assert_eq!(
        summary_prompt(true, &None, "t").unwrap_err(),
        "no model set for this session; cannot summarize thinking"
    );
    assert!(summary_prompt(true, &m, "steps").unwrap().ends_with("Thinking transcript:\n\nsteps"));
    let long = "ab".repeat(12_001);
    let asked = summary_prompt(true, &m, &long).unwrap();
    assert!(asked.ends_with(&format!("transcript:\n\n{}", "ab".repeat(12_000))));
    assert_eq!(summary_result("s".to_string(), None).unwrap(), "s");
    assert_eq!(summary_result("s".to_string(), text("bad")).unwrap_err(), "bad");
}

#[test]
fn unknown_skills_of_the_configuration_are_told_of() {
    assert!(resources().diagnostics.is_empty());
    let config = names(&["karpathy-guidelines", "no-such-skill"]);
    let loaded = SessionProjectResources::load(
        "/b",
        String::new(),
        &Vec::new(),
        &config,
        false,
        scan(&[], &[]),
        &Vec::new(),
    );
    let r = match loaded {
        Ok(r) => r,
        Err(e) => panic!("{e:?}"),
    };
    assert_eq!(r.builtins.len(), 1);
    assert_eq!(r.diagnostics.len(), 1);
    assert!(r.diagnostics[0].contains("no-such-skill"));
}
