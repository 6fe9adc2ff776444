use std::collections::BTreeMap;
use theway_daemon::file_commands::{
    command_dirs, expand_file_command, has_readable_frontmatter, scan_file_commands,
    scan_file_commands_in, split_frontmatter, CommandFile, FileCommand,
};

fn file(name: &str, content: &str) -> CommandFile {
    assert!(has_readable_frontmatter(content));
    let text = split_frontmatter(content);
    let description = match &text.frontmatter {
        Some(yaml) => serde_yaml::from_str::<BTreeMap<String, String>>(yaml)
            .unwrap_or_default()
            .remove("description")
            .unwrap_or_default(),
        None => String::new(),
    };
    CommandFile {
        name: format!("{name}.md"),
        description,
        body: text.body,
    }
}

/// The files of the four directories of a scan.
fn listings(
    project_agents: Vec<CommandFile>,
    project_other: Vec<CommandFile>,
    user_agents: Vec<CommandFile>,
    user_other: Vec<CommandFile>,
) -> Vec<Vec<CommandFile>> {
    vec![project_agents, project_other, user_agents, user_other]
}

#[test]
fn scans_both_formats_with_frontmatter_description() {
    let files = listings(
        vec![file("bare", "no frontmatter here\n")],
        vec![file(
            "review",
            "---\ndescription: review the diff\n---\nplease review $ARGUMENTS\n",
        )],
        Vec::new(),
        Vec::new(),
    );
    let cmds = scan_file_commands_in("/cwd", "/user", ".other", &files);
    assert_eq!(cmds.len(), 2);
    let review = cmds.iter().find(|c| c.name == "review").unwrap();
    assert_eq!(review.description, "review the diff");
    assert_eq!(review.body, "please review $ARGUMENTS");
    assert!(review.path.ends_with("review.md"));
    assert_eq!(review.path, "/cwd/.other/commands/review.md");
    assert_eq!(cmds[0].name, "bare");
    assert_eq!(cmds[1].name, "review");
    assert_eq!(cmds[0].body, "no frontmatter here\n");
}

#[test]
fn first_root_wins_on_name_collision() {
    let files = listings(
        vec![file("commit", "from agents")],
        vec![file("commit", "from other")],
        Vec::new(),
        vec![file("commit", "from user other")],
    );
    let cmds = scan_file_commands_in("/cwd", "/user", ".other", &files);
    assert_eq!(cmds.len(), 1);
    assert_eq!(cmds[0].body, "from agents");
    assert!(cmds[0].path.starts_with("/cwd/.agents"));
}

#[test]
fn project_wins_over_user() {
    let files = listings(
        Vec::new(),
        vec![file("deploy", "project")],
        Vec::new(),
        vec![file("deploy", "user")],
    );
    let cmds = scan_file_commands_in("/cwd", "/user", ".other", &files);
    assert_eq!(cmds.len(), 1);
    assert_eq!(cmds[0].body, "project");
}

#[test]
fn missing_dirs_and_junk_files_are_skipped() {
    let other = |name: &str, body: &str| CommandFile {
        name: name.to_string(),
        description: String::new(),
        body: body.to_string(),
    };
    // The directories of the user are missing.
    let files = vec![
        Vec::new(),
        vec![other("notes.txt", "junk"), file("ok", "body"), other("subdir", "")],
    ];
    let cmds = scan_file_commands("/cwd", "/user", ".other", &files);
    assert_eq!(cmds.len(), 1);
    assert_eq!(cmds[0].name, "ok");
}

#[test]
fn commands_lie_in_the_scanned_directories() {
    let files = listings(
        vec![file("a", "1")],
        vec![file("b", "2"), file("up/c", "3")],
        vec![file("d", "4")],
        vec![file("e", "5")],
    );
    let dirs = command_dirs("/cwd", "/user", ".other");
    let cmds = scan_file_commands("/cwd", "/user", ".other", &files);
    assert_eq!(cmds.len(), 4);
    for (cmd, dir) in cmds.iter().zip(dirs) {
        assert_eq!(cmd.path, format!("{dir}/{}.md", cmd.name));
    }
}

fn command(body: &str) -> FileCommand {
    FileCommand {
        name: "commit".to_string(),
        description: String::new(),
        body: body.to_string(),
        path: String::new(),
    }
}

#[test]
fn expand_substitutes_arguments_and_positionals() {
    let cmd = command("commit $1 with $2\nrest: $ARGUMENTS\nshort: $ARGS");
    let out = expand_file_command(&cmd, "one two three");
    assert_eq!(
        out,
        "commit one with two\nrest: one two three\nshort: one two three"
    );
    let no_args = expand_file_command(&cmd, "");
    assert_eq!(no_args, "commit $1 with $2\nrest: \nshort: ");
}

#[test]
fn expand_takes_nine_positionals() {
    let cmd = command("$1$2$3$4$5$6$7$8$9");
    assert_eq!(expand_file_command(&cmd, "a b c d e f g h i j"), "abcdefghi");
}

#[test]
fn inserted_arguments_are_not_expanded_again() {
    assert_eq!(expand_file_command(&command("run $ARGUMENTS"), "cost $1"), "run cost $1");
    assert_eq!(expand_file_command(&command("run $ARGS"), "$ARGUMENTS"), "run $ARGUMENTS");
    assert_eq!(expand_file_command(&command("$1 and $2"), "$2 x"), "$2 and x");
    assert_eq!(expand_file_command(&command("$$1 $10 $0 $"), "a"), "$a a0 $0 $");
}

#[test]
fn roots_in_the_order_of_their_priority() {
    assert_eq!(
        command_dirs("/cwd", "/home", ".other"),
        vec![
            "/cwd/.agents/commands",
            "/cwd/.other/commands",
            "/home/.agents/commands",
            "/home/.other/commands"
        ]
    );
}

#[test]
fn files_of_one_directory_are_read_in_the_order_of_their_paths() {
    let files = vec![vec![file("b", "second"), file("a", "first")]];
    let cmds = scan_file_commands("/cwd", "/user", ".other", &files);
    assert_eq!(cmds.len(), 2);
    assert_eq!(cmds[0].body, "first");
    assert_eq!(cmds[1].body, "second");
}

#[test]
fn line_endings_and_unclosed_frontmatter() {
    let windows = split_frontmatter("---\r\ndescription: d\r\n---\r\nbody\r\n");
    assert_eq!(windows.frontmatter.as_deref(), Some("description: d"));
    assert_eq!(windows.body, "body");
    let open = split_frontmatter("---\nnever closed\n");
    assert!(open.frontmatter.is_none());
    assert_eq!(open.body, "---\nnever closed\n");
    let plain = split_frontmatter(" one\r\ntwo \n");
    assert!(plain.frontmatter.is_none());
    assert_eq!(plain.body, " one\r\ntwo \n");
}

#[test]
fn empty_frontmatter_is_split_off() {
    assert!(has_readable_frontmatter("---\n---\nbody"));
    let empty = split_frontmatter("---\n---\nbody");
    assert_eq!(empty.frontmatter.as_deref(), Some(""));
    assert_eq!(empty.body, "body");
    assert!(!has_readable_frontmatter("---\u{e9}\n---\nbody"));
}
