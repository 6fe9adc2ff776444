use theway_daemon::builtin_skills::{
    available_builtin_names, builtins, merge_with_user_project, parse_builtin_skills_config,
    resolve_builtins, strip_frontmatter,
};
use theway_daemon::skill::{Skill, SkillSource};

fn names(v: &[&str]) -> Vec<String> {
    v.iter().map(|s| s.to_string()).collect()
}

#[test]
fn available_names_is_sorted_and_contains_karpathy() {
    let names = available_builtin_names();
    let mut sorted = names.clone();
    sorted.sort_unstable();
    assert_eq!(
        names, sorted,
        "available names must be alphabetically sorted"
    );
    assert!(names.contains(&"karpathy-guidelines".to_string()));
}

#[test]
fn no_request_returns_empty_no_diagnostics() {
    let resolved = resolve_builtins(&names(&[]), &names(&[])).expect("empty inputs are always OK");
    assert!(resolved.skills.is_empty());
    assert!(resolved.diagnostics.is_empty());
}

#[test]
fn cli_known_name_enables_skill_with_stripped_body() {
    let resolved =
        resolve_builtins(&names(&["karpathy-guidelines"]), &names(&[])).expect("known name");
    assert_eq!(resolved.skills.len(), 1);
    let s = &resolved.skills[0];
    assert_eq!(s.name, "karpathy-guidelines");
    assert!(s.description.starts_with("Behavioral guidelines"));
    assert_eq!(s.file_path, "<builtin>/karpathy-guidelines/SKILL.md");
    assert!(
        s.content.starts_with("# Karpathy Guidelines"),
        "expected body to start with the H1 header, got: {:?}",
        &s.content[..s.content.len().min(80)]
    );
    assert!(!s.content.starts_with("---"));
    assert!(!s.content.contains("\nlicense: MIT"));
    assert!(s.content.contains("Think Before Coding"));
    assert!(!s.disable_model_invocation);
}

#[test]
fn cli_unknown_name_hard_fails_with_available_list() {
    let err = resolve_builtins(&names(&["nonexistent-skill"]), &names(&[]))
        .expect_err("unknown CLI name must hard fail");
    assert_eq!(err.unknown, vec!["nonexistent-skill".to_string()]);
    assert!(err.available.contains(&"karpathy-guidelines".to_string()));
    let mut sorted_available = err.available.clone();
    sorted_available.sort();
    assert_eq!(err.available, sorted_available);
    assert_eq!(
        err.message(),
        "unknown built-in skill(s) requested via --builtin-skill: nonexistent-skill. Available: karpathy-guidelines."
    );
}

#[test]
fn cli_mixes_known_and_unknown_reports_all_unknown_at_once() {
    let err = resolve_builtins(
        &names(&["karpathy-guidelines", "missing-a", "missing-b"]),
        &names(&[]),
    )
    .expect_err("any unknown CLI name must hard fail");
    assert!(err.unknown.contains(&"missing-a".to_string()));
    assert!(err.unknown.contains(&"missing-b".to_string()));
    assert_eq!(err.unknown.len(), 2);
}

#[test]
fn config_unknown_name_is_soft_warning_not_fail() {
    let resolved = resolve_builtins(&names(&[]), &names(&["nonexistent-skill"]))
        .expect("unknown config name must NOT hard fail");
    assert!(
        resolved.skills.is_empty(),
        "unknown name must not enable anything"
    );
    assert_eq!(resolved.diagnostics.len(), 1);
    let diag = &resolved.diagnostics[0];
    assert!(diag.contains("nonexistent-skill"));
    assert!(diag.contains("Available: karpathy-guidelines"));
}

#[test]
fn config_mixes_known_and_unknown_keeps_known_skips_unknown() {
    let resolved = resolve_builtins(&names(&[]), &names(&["karpathy-guidelines", "missing"]))
        .expect("config soft path must not fail on unknown");
    assert_eq!(resolved.skills.len(), 1);
    assert_eq!(resolved.skills[0].name, "karpathy-guidelines");
    assert_eq!(resolved.diagnostics.len(), 1);
    assert!(resolved.diagnostics[0].contains("missing"));
}

#[test]
fn cli_and_config_same_name_does_not_duplicate_catalog_entry() {
    let resolved = resolve_builtins(
        &names(&["karpathy-guidelines"]),
        &names(&["karpathy-guidelines"]),
    )
    .expect("known on both sides is fine");
    assert_eq!(
        resolved.skills.len(),
        1,
        "union should dedup the same name across CLI + config"
    );
    assert!(resolved.diagnostics.is_empty());
}

#[test]
fn cli_repeated_same_name_does_not_duplicate_catalog_entry() {
    let resolved = resolve_builtins(
        &names(&["karpathy-guidelines", "karpathy-guidelines"]),
        &names(&[]),
    )
    .expect("repeated --builtin-skill should be idempotent");
    assert_eq!(resolved.skills.len(), 1);
}

fn fake_skill(name: &str, file_path: &str) -> Skill {
    Skill {
        name: name.into(),
        description: format!("desc for {name}"),
        file_path: file_path.into(),
        content: format!("body of {name}"),
        disable_model_invocation: false,
        source: SkillSource::User,
    }
}

#[test]
fn merge_no_user_project_returns_builtins_unchanged() {
    let builtins = vec![fake_skill(
        "karpathy-guidelines",
        "<builtin>/karpathy-guidelines/SKILL.md",
    )];
    let merged = merge_with_user_project(builtins, &Vec::new());
    assert_eq!(merged.len(), 1);
    assert_eq!(merged[0].name, "karpathy-guidelines");
    assert_eq!(
        merged[0].file_path,
        "<builtin>/karpathy-guidelines/SKILL.md"
    );
}

#[test]
fn merge_user_project_skill_shadows_builtin_same_name() {
    let builtins = vec![fake_skill(
        "karpathy-guidelines",
        "<builtin>/karpathy-guidelines/SKILL.md",
    )];
    let user_project = vec![fake_skill(
        "karpathy-guidelines",
        "/home/me/.theway/skills/karpathy-guidelines/SKILL.md",
    )];
    let merged = merge_with_user_project(builtins, &user_project);
    assert_eq!(merged.len(), 1, "same name must collapse to one entry");
    assert_eq!(merged[0].name, "karpathy-guidelines");
    assert_eq!(
        merged[0].file_path, "/home/me/.theway/skills/karpathy-guidelines/SKILL.md",
        "user / project entry must shadow the built-in"
    );
}

#[test]
fn merge_unrelated_user_project_skills_appended_after_builtins() {
    let builtins = vec![fake_skill(
        "karpathy-guidelines",
        "<builtin>/karpathy-guidelines/SKILL.md",
    )];
    let user_project = vec![fake_skill(
        "my-personal-skill",
        "/home/me/.theway/skills/my-personal-skill/SKILL.md",
    )];
    let merged = merge_with_user_project(builtins, &user_project);
    assert_eq!(merged.len(), 2);
    assert_eq!(merged[0].name, "karpathy-guidelines");
    assert_eq!(merged[1].name, "my-personal-skill");
}

#[test]
fn merge_handles_empty_builtins_with_user_project() {
    let user_project = vec![fake_skill(
        "my-personal-skill",
        "/home/me/.theway/skills/my-personal-skill/SKILL.md",
    )];
    let merged = merge_with_user_project(Vec::new(), &user_project);
    assert_eq!(merged.len(), 1);
    assert_eq!(merged[0].name, "my-personal-skill");
}

#[test]
fn parse_config_extracts_enabled_list() {
    let text = r#"
[builtin_skills]
enabled = ["karpathy-guidelines", "future-other-skill"]
"#;
    let enabled = parse_builtin_skills_config(text);
    assert_eq!(
        enabled,
        vec![
            "karpathy-guidelines".to_string(),
            "future-other-skill".to_string()
        ]
    );
}

#[test]
fn parse_config_missing_section_is_empty_list() {
    let text = r#"
[some_other_section]
key = "value"
"#;
    let enabled = parse_builtin_skills_config(text);
    assert!(enabled.is_empty());
}

#[test]
fn parse_config_missing_enabled_key_is_empty_list() {
    let text = r#"
[builtin_skills]
"#;
    let enabled = parse_builtin_skills_config(text);
    assert!(enabled.is_empty());
}

#[test]
fn parse_config_malformed_toml_degrades_to_empty_not_panic() {
    let text = "this is not valid toml [ [ [";
    let enabled = parse_builtin_skills_config(text);
    assert!(enabled.is_empty());
}

#[test]
fn parse_config_empty_string_is_empty_list() {
    let enabled = parse_builtin_skills_config("");
    assert!(enabled.is_empty());
}

#[test]
fn parse_config_of_another_shape_enables_nothing() {
    assert!(parse_builtin_skills_config("[builtin_skills]\nenabled = [\"a\", 1]").is_empty());
    assert!(parse_builtin_skills_config("[builtin_skills]\nenabled = \"a\"").is_empty());
    assert!(parse_builtin_skills_config("builtin_skills = 3").is_empty());
}

#[test]
fn vendored_skill_md_frontmatter_matches_hardcoded_metadata() {
    let all = builtins();
    let raw = all
        .iter()
        .find(|b| b.name == "karpathy-guidelines")
        .unwrap();
    assert!(raw.raw_markdown.contains("name: karpathy-guidelines"));
    assert!(
        raw.raw_markdown.contains(raw.description),
        "vendored SKILL.md description must byte-match the hardcoded BuiltinSpec.description"
    );
}

#[test]
fn frontmatter_is_stripped_only_where_it_is_closed() {
    assert_eq!(strip_frontmatter("---\nname: x\n---\n\nbody\n"), "body\n");
    assert_eq!(strip_frontmatter("no frontmatter\n"), "no frontmatter\n");
    assert_eq!(strip_frontmatter("---\nnever closed\n"), "---\nnever closed\n");
}
