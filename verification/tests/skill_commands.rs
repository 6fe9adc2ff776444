use theway_daemon::commands::skills::{
    install_params, install_report, parse_skill_install_args, parse_skill_remove_args,
    parse_skill_source, plan_state, print_skills_list, reload_report, remove_params, remove_report,
    resolve_active_skill, show_skill, skill_install_source, skill_state_audit, state_report,
    tool_result_text, SkillsCommand, SkillsPlan, StateEnd, StatePlan, ToolResult, BAD_SOURCE,
    NO_SKILLS, SKILLS_USAGE,
};
use theway_daemon::commands::{CommandOutcome, Report};
use theway_daemon::json::Json;
use theway_daemon::session_tree::UserBlock;
use theway_daemon::skill::{Skill, SkillSource};

fn args(v: &[&str]) -> Vec<String> {
    v.iter().map(|s| s.to_string()).collect()
}

fn error(outcome: CommandOutcome) -> String {
    match outcome {
        CommandOutcome::Error(e) => e,
        other => panic!("not an error: {other:?}"),
    }
}

fn lines(report: Report) -> Vec<String> {
    assert!(matches!(report.outcome, CommandOutcome::Handled));
    report.lines
}

fn skill(name: &str, source: SkillSource, disabled: bool) -> Skill {
    Skill {
        name: name.to_string(),
        description: format!("about {name}"),
        file_path: format!("/s/{name}"),
        content: String::new(),
        disable_model_invocation: disabled,
        source,
    }
}

fn catalog() -> Vec<Skill> {
    vec![
        skill("a", SkillSource::User, false),
        skill("a", SkillSource::Project, true),
        skill("b", SkillSource::Builtin, false),
    ]
}

fn parse(s: &str) -> Json {
    match Json::parse(s) {
        Ok(v) => v,
        Err(e) => panic!("{e}"),
    }
}

#[test]
fn subcommands_of_skills() {
    let plan = |v: &[&str]| SkillsCommand.plan(&args(v));
    assert!(matches!(plan(&[]), SkillsPlan::List));
    assert!(matches!(plan(&["ls"]), SkillsPlan::List));
    assert!(matches!(plan(&["list"]), SkillsPlan::List));
    assert!(matches!(plan(&["reload"]), SkillsPlan::Reload));
    match plan(&["install", "--confirm", "x"]) {
        SkillsPlan::Install(v) => assert_eq!(v, vec!["--confirm", "x"]),
        other => panic!("{other:?}"),
    }
    assert!(matches!(plan(&["show", "x"]), SkillsPlan::Show(_)));
    assert!(matches!(plan(&["enable", "x"]), SkillsPlan::Enable(_)));
    assert!(matches!(plan(&["disable", "x"]), SkillsPlan::Disable(_)));
    assert!(matches!(plan(&["remove", "x"]), SkillsPlan::Remove(_)));
    match plan(&["drop"]) {
        SkillsPlan::Refused(o) => assert_eq!(error(o), format!("usage: /skills {SKILLS_USAGE}")),
        other => panic!("{other:?}"),
    }
}

#[test]
fn skills_are_listed() {
    assert_eq!(lines(print_skills_list(&Vec::new())), vec![NO_SKILLS]);
    let out = lines(print_skills_list(&catalog()));
    assert_eq!(out[0], "Loaded skills (3):");
    assert_eq!(out[1], "  - a  (user)");
    assert_eq!(out[2], "      about a");
    assert_eq!(out[3], "      path: /s/a");
    assert_eq!(
        out[4],
        "  - a  (project)  [disabled: disable_model_invocation=true]"
    );
}

#[test]
fn skills_are_told_apart_by_their_sources() {
    assert_eq!(parse_skill_source("builtin").unwrap(), SkillSource::Builtin);
    assert_eq!(
        parse_skill_source(SkillSource::User.label()).unwrap(),
        SkillSource::User
    );
    assert_eq!(parse_skill_source("x").unwrap_err(), BAD_SOURCE);
    assert_eq!(
        resolve_active_skill(&catalog(), "a", Some(SkillSource::Project)).unwrap(),
        1
    );
    assert_eq!(resolve_active_skill(&catalog(), "b", None).unwrap(), 2);
    assert_eq!(
        resolve_active_skill(&catalog(), "a", None).unwrap_err(),
        "multiple active skills named 'a'; pass source: builtin, user, or project"
    );
    assert_eq!(
        resolve_active_skill(&catalog(), "z", None).unwrap_err(),
        "no active skill named 'z'. Run /skills to list loaded skills."
    );
    assert_eq!(
        resolve_active_skill(&catalog(), "b", Some(SkillSource::User)).unwrap_err(),
        "no active user skill named 'b'. Run /skills to list loaded skills."
    );
}

#[test]
fn skills_are_shown_and_reloaded() {
    let out = lines(show_skill(&args(&["a", "project"]), &catalog()));
    assert_eq!(out[0], "Skill: a (project)");
    assert_eq!(out[1], "Status: disabled");
    assert_eq!(
        error(show_skill(&args(&[]), &catalog()).outcome),
        "usage: /skills show <name> [source]"
    );
    assert_eq!(
        error(show_skill(&args(&["a", "x"]), &catalog()).outcome),
        BAD_SOURCE
    );
    assert_eq!(
        lines(reload_report(&Ok((2, 1)))),
        vec!["reloaded skills: 2 loaded, 1 diagnostics"]
    );
    assert_eq!(
        error(reload_report(&Err("e".to_string())).outcome),
        "reload skills failed: e"
    );
}

#[test]
fn skills_are_enabled_and_disabled() {
    match plan_state(&args(&["a", "project"]), &catalog(), true) {
        StatePlan::Change { name, source } => {
            assert_eq!(name, "a");
            assert_eq!(source, SkillSource::Project);
        }
        other => panic!("{other:?}"),
    }
    match plan_state(&args(&["b"]), &catalog(), true) {
        StatePlan::Done(r) => assert_eq!(lines(r), vec!["skill already enabled: b (builtin)"]),
        other => panic!("{other:?}"),
    }
    match plan_state(&args(&[]), &catalog(), false) {
        StatePlan::Done(r) => assert_eq!(
            error(r.outcome),
            "usage: /skills disable <name> [source]"
        ),
        other => panic!("{other:?}"),
    }
    let report = |end: StateEnd| state_report("a", SkillSource::User, false, &end);
    assert_eq!(
        lines(report(StateEnd::Reloaded { diagnostics: 0 })),
        vec!["disabled skill: a (user)"]
    );
    assert_eq!(
        lines(report(StateEnd::Reloaded { diagnostics: 2 })),
        vec!["disabled skill: a (user) (2 diagnostics)"]
    );
    assert_eq!(
        error(report(StateEnd::NotSaved("e".to_string())).outcome),
        "persist skill state failed: e"
    );
    assert_eq!(
        error(report(StateEnd::NotReloaded("e".to_string())).outcome),
        "reload after skill state change failed: e"
    );
    let audit = skill_state_audit("a", SkillSource::User, true, false);
    assert_eq!(audit.text_member("op").as_deref(), Some("set_state"));
    assert_eq!(audit.bool_field("after_enabled"), Some(false));
}

#[test]
fn arguments_of_installations_and_removals() {
    let a = parse_skill_install_args(&args(&["--yes", "x", "--overwrite"])).unwrap();
    assert_eq!(a.target, "x");
    assert!(a.confirm && a.overwrite);
    assert_eq!(
        parse_skill_install_args(&args(&["--force", "x"])).unwrap_err(),
        "unknown option for /skills install: --force"
    );
    assert_eq!(
        parse_skill_install_args(&args(&[])).unwrap_err(),
        "usage: /skills install [--confirm] [--overwrite] <https-url|path>"
    );
    let r = parse_skill_remove_args(&args(&["a", "user", "--confirm"])).unwrap();
    assert_eq!(r.source, Some(SkillSource::User));
    assert!(r.confirm);
    assert_eq!(
        parse_skill_remove_args(&args(&["a", "x"])).unwrap_err(),
        BAD_SOURCE
    );
    assert_eq!(
        parse_skill_remove_args(&args(&["a", "--overwrite"])).unwrap_err(),
        "unknown option for /skills remove: --overwrite"
    );
    assert_eq!(
        parse_skill_remove_args(&args(&[])).unwrap_err(),
        "usage: /skills remove [--confirm] <name> [source]"
    );
    assert_eq!(
        skill_install_source("https://x", "/w").render(),
        r#"{"type":"url","url":"https://x"}"#
    );
    assert_eq!(
        skill_install_source("x", "/w").render(),
        r#"{"path":"/w/x","type":"path"}"#
    );
    assert_eq!(
        install_params(&a, "/w").render(),
        r#"{"confirm":true,"overwrite":true,"source":{"path":"/w/x","type":"path"}}"#
    );
    assert_eq!(
        remove_params(&r).render(),
        r#"{"confirm":true,"name":"a","source":"user"}"#
    );
}

#[test]
fn installations_and_removals_are_reported() {
    let asked = parse_skill_install_args(&args(&["x"])).unwrap();
    let preview = ToolResult {
        details: parse(
            r#"{"phase":"preview","name":"n","target_path":"/t","size":5,"existing":true,"overwrite_required":true}"#,
        ),
        content: Vec::new(),
    };
    assert_eq!(
        lines(install_report(&Ok(preview), &asked)),
        vec![
            "skill install preview: n -> /t (5B, existing=true, overwrite_required=true)",
            "run `/skills install --confirm --overwrite <same-url-or-path>` to install"
        ]
    );
    let done = || ToolResult {
        details: Json::Null,
        content: vec![
            UserBlock::Text("one".to_string()),
            UserBlock::Image,
            UserBlock::Text("two\nthree".to_string()),
        ],
    };
    assert_eq!(tool_result_text(&done()), "one\ntwo\nthree");
    assert_eq!(
        lines(install_report(&Ok(done()), &asked)),
        vec!["one", "two", "three"]
    );
    assert_eq!(
        error(install_report(&Err("e".to_string()), &asked).outcome),
        "install skill failed: e"
    );
    let preview = ToolResult {
        details: parse(r#"{"phase":"preview"}"#),
        content: Vec::new(),
    };
    assert_eq!(
        lines(remove_report(&Ok(preview))),
        vec![
            "skill remove preview: <unknown> (user) -> <unknown>",
            "run `/skills remove --confirm <unknown>` to remove it"
        ]
    );
    assert_eq!(
        error(remove_report(&Err("e".to_string())).outcome),
        "remove skill failed: e"
    );
}
