use theway_daemon::executor::file_lock::{
    after_attempt, lock_file_path, missing_target, LockStep,
};
use theway_daemon::executor::local::{
    file_error, finished_output, list_dir_names,
    temp_file_name, timed_out_output, write_plan, FindScan, GrepScan, LocalExecutor, WritePlan,
    WriteTarget, MAX_GREP_MATCHES,
};
use theway_daemon::executor::sandbox::SandboxExecutor;
use theway_daemon::executor::{
    executor_for_cwd, executor_for_kind, parse_executor_kind, Executor, ExecutorError,
    ExecutorKind,
};

fn message(e: ExecutorError) -> String {
    match e {
        ExecutorError::Other(m) => m,
        ExecutorError::UnsupportedKind(kind) => panic!("unsupported: {kind:?}"),
    }
}

#[test]
fn parse_executor_kind_accepts_both_values_case_insensitively() {
    assert_eq!(parse_executor_kind("local").unwrap(), ExecutorKind::Local);
    assert_eq!(
        parse_executor_kind("Sandbox").unwrap(),
        ExecutorKind::Sandbox
    );
    assert_eq!(
        parse_executor_kind(" SANDBOX ").unwrap(),
        ExecutorKind::Sandbox
    );
    assert!(parse_executor_kind("docker").is_err());
    assert!(parse_executor_kind("").is_err());
}

#[test]
fn an_unknown_kind_is_quoted() {
    assert_eq!(
        parse_executor_kind(" Do\"cker").unwrap_err(),
        "invalid executor kind \"do\\\"cker\": expected \"local\" or \"sandbox\""
    );
}

#[test]
fn executor_for_cwd_roots_local_executor_at_cwd() {
    let executor = executor_for_cwd("/work".to_string());
    assert_eq!(executor.kind(), ExecutorKind::Local);
    match executor {
        Executor::Local(local) => {
            assert_eq!(local.cwd(), "/work");
            assert_eq!(local.resolve("probe.txt"), "/work/probe.txt");
            assert_eq!(local.resolve("/etc/hosts"), "/etc/hosts");
        }
        Executor::Sandbox(_) => panic!("not a sandbox"),
    }
}

#[test]
fn executor_for_kind_returns_the_configured_environment() {
    let local = executor_for_kind(ExecutorKind::Local, "/work".to_string());
    assert_eq!(local.kind(), ExecutorKind::Local);
    let sandbox = executor_for_kind(ExecutorKind::Sandbox, "/work".to_string());
    assert_eq!(sandbox.kind(), ExecutorKind::Sandbox);
}

#[test]
fn the_sandbox_offers_nothing() {
    let s = SandboxExecutor::new();
    assert_eq!(s.kind(), ExecutorKind::Sandbox);
    let unsupported = |e: ExecutorError| {
        matches!(e, ExecutorError::UnsupportedKind(ExecutorKind::Sandbox))
    };
    assert!(unsupported(s.read_file("a").unwrap_err()));
    assert!(unsupported(s.write_file("a", "b").unwrap_err()));
    assert!(unsupported(s.run_command(".", &Vec::new()).unwrap_err()));
    assert!(unsupported(s.list_dir(".").unwrap_err()));
    assert!(unsupported(s.grep("x", ".").unwrap_err()));
    assert!(unsupported(s.find("*", ".").unwrap_err()));
    assert!(unsupported(s.git(&Vec::new()).unwrap_err()));
}

#[test]
fn plans_of_processes() {
    let local = LocalExecutor::with_cwd("/work".to_string());
    let plan = local
        .run_plan("sub", &vec!["ls".to_string(), "-l".to_string()])
        .unwrap();
    assert_eq!(plan.program, "ls");
    assert_eq!(plan.args, vec!["-l"]);
    assert_eq!(plan.cwd, "/work/sub");
    assert!(local.run_plan(".", &Vec::new()).is_err());
    let git = local.git_plan(&vec!["status".to_string()]).unwrap();
    assert_eq!(git.program, "git");
    assert_eq!(git.cwd, "/work");
    assert_eq!(
        message(local.git_plan(&Vec::new()).unwrap_err()),
        "git: missing args"
    );
    assert_eq!(timed_out_output().exit_code, -1);
    assert_eq!(
        finished_output(String::new(), String::new(), None).exit_code,
        -1
    );
    assert_eq!(
        finished_output(String::new(), String::new(), Some(2)).exit_code,
        2
    );
}

#[test]
fn names_and_errors_of_files() {
    assert_eq!(
        list_dir_names(&vec!["b".to_string(), "a".to_string()]),
        vec!["a", "b"]
    );
    assert_eq!(message(file_error("read", "/a", "denied")), "read /a: denied");
    assert!(temp_file_name("/", 1, 2).is_err());
    assert_ne!(
        temp_file_name("/a/b", 1, 2).unwrap(),
        temp_file_name("/a/b", 1, 3).unwrap()
    );
    let replaced = |found: WriteTarget| match write_plan("/a/link", &found, 7, 9).unwrap() {
        WritePlan::Replace { target, temp_name } => (target, temp_name),
        WritePlan::Direct => panic!("written through"),
    };
    assert_eq!(
        replaced(WriteTarget::Plain),
        ("/a/link".to_string(), ".link.theway-tmp-7-9".to_string())
    );
    assert_eq!(
        replaced(WriteTarget::LinkTo("/b/file".to_string())),
        ("/b/file".to_string(), ".file.theway-tmp-7-9".to_string())
    );
    assert!(matches!(
        write_plan("/a/link", &WriteTarget::BrokenLink, 7, 9),
        Ok(WritePlan::Direct)
    ));
    let fault = write_plan("..", &WriteTarget::Plain, 7, 9).unwrap_err();
    assert_eq!(message(fault), "path has no file name: ..");
}

#[test]
fn file_searches_stop() {
    let mut scan = FindScan::start("*.rs").unwrap();
    assert!(scan.types.matched("a.rs", false).is_whitelist());
    assert!(scan.types.matched("a.md", false).is_ignore());
    assert!(scan.entry("d", false));
    for i in 0..200 {
        assert!(scan.entry(&format!("{i}.rs"), true));
    }
    assert!(scan.entry("e", false));
    assert!(!scan.entry("more.rs", true));
    assert_eq!(scan.found.len(), 200);
    assert_eq!(scan.found[0], "0.rs");
    assert!(message(FindScan::start("a[").unwrap_err()).starts_with("find: invalid glob \"a[\": "));
}

#[test]
fn searches_find_lines_and_stop() {
    let mut scan = GrepScan::start("fo+").unwrap();
    assert!(scan.file("a.txt", Some("foo\nbar\nxfo\n")));
    assert!(scan.file("b.bin", None));
    assert_eq!(scan.found, vec!["a.txt:1:foo", "a.txt:3:xfo"]);
    assert_eq!(scan.files, 2);
    let long = "foo\n".repeat(MAX_GREP_MATCHES + 5);
    assert!(!scan.file("c.txt", Some(&long)));
    assert_eq!(scan.found.len(), MAX_GREP_MATCHES);
    assert!(message(GrepScan::start("(").unwrap_err()).starts_with("grep: invalid regex"));
}

#[test]
fn lock_identity_survives_target_rewrites() {
    let before = lock_file_path("/tmp", "/dir/t.txt");
    assert_eq!(lock_file_path("/tmp", "/dir/t.txt"), before);
    assert_ne!(lock_file_path("/tmp", "/dir/u.txt"), before);
}

#[test]
fn locks_are_named_by_the_digest_of_the_path() {
    assert_eq!(missing_target("/dir", "sub/new.txt").unwrap(), "/dir/new.txt");
    assert_eq!(missing_target("/dir", "..").unwrap_err(), "path has no file name: ..");
    assert_eq!(
        lock_file_path("/tmp", "abc"),
        "/tmp/theway-file-locks/ba7816bf8f01cfea414140de5dae2223b00361a396177a9cb410ff61f20015ad.lock"
    );
}

#[test]
fn second_acquire_waits_until_first_release() {
    assert!(matches!(
        after_attempt(&Ok(false), false, "200ms", "/dir/shared.txt"),
        LockStep::Wait
    ));
    match after_attempt(&Ok(false), true, "200ms", "/dir/shared.txt") {
        LockStep::TimedOut(m) => assert_eq!(
            m,
            "timed out after 200ms waiting for the file lock on /dir/shared.txt (another agent editing the same file?)"
        ),
        _ => panic!("the wait has ended"),
    }
    assert!(matches!(
        after_attempt(&Ok(true), true, "5s", "/dir/shared.txt"),
        LockStep::Acquired
    ));
    match after_attempt(&Err("denied".to_string()), false, "5s", "/dir/shared.txt") {
        LockStep::Failed(m) => assert_eq!(m, "denied"),
        _ => panic!("the attempt failed"),
    }
}
