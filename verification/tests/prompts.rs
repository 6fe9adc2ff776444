use theway_daemon::attachments::{
    check_image_count, decode_prompt_image, decoded_image, file_parts, image_part, leaf_name,
    media_type, mentioned_files, record, AdmissionAction, AdmissionEvent, MentionedFile, PromptAdmission,
    PromptImage, SkillEnvelope,
};
use theway_daemon::context::lineage::{CompactContext, GRAPH_HINT};
use theway_daemon::context::service::ContextService;
use theway_daemon::context::system_prompt::{
    compose_system_prompt, dedent, render_tool_inventory, tool_category,
};
use theway_daemon::context::{lineage, render_lineage, system_prompt_for_session};
use theway_daemon::control_plane_prompt::{resolve, ControlPlanePromptDecision, PromptWait};
use theway_daemon::external_protocol_ops::{accepted, replied, PathContext};
use theway_daemon::forwarding_tool_ops::{connect_error, endpoint_plan, lost_frame, EndpointPlan};
use theway_daemon::user_input::{InputInjectedPart, InputPart};

fn names(v: &[&str]) -> Vec<String> {
    v.iter().map(|s| s.to_string()).collect()
}

fn compact(source: &str, text: &str) -> Option<CompactContext> {
    Some(CompactContext { source_session_id: source.to_string(), compact_text: text.to_string() })
}

fn image(name: Option<&str>, data: &str) -> PromptImage {
    PromptImage { name: name.map(str::to_string), data: data.to_string() }
}

#[test]
fn tools_are_grouped() {
    assert_eq!(tool_category("dag_plan"), "Orchestration & planning");
    assert_eq!(tool_category("ask_user"), "Orchestration & planning");
    assert_eq!(tool_category("session_graph_read"), "Session graph");
    assert_eq!(tool_category("crg__x"), "Context & search");
    assert_eq!(tool_category("git"), "Files");
    assert_eq!(tool_category("web_fetch"), "Web");
    assert_eq!(tool_category("kill_shell"), "Execution");
    assert_eq!(tool_category("new_cron_job"), "Automation & skills");
    assert_eq!(tool_category("set_skill_state"), "Automation & skills");
    assert_eq!(tool_category("thing"), "Other");
    assert_eq!(render_tool_inventory(&Vec::new()), "no tools registered");
    assert_eq!(
        render_tool_inventory(&names(&["write", "bash", "read", "read", "thing"])),
        "- Files: read, write\n- Execution: bash\n- Other: thing"
    );
}

#[test]
fn common_indentation_is_removed() {
    assert_eq!(dedent("  a\n\n    b\n  c"), "a\n\n  b\nc");
    assert_eq!(dedent("a\n  b"), "a\n  b");
    assert_eq!(dedent(""), "");
}

#[test]
fn prompt_names_its_parts_in_order() {
    let p = compose_system_prompt("/w", "remember", &names(&["read"]), Some("from x"), None);
    assert!(p.starts_with("<harness>\nYou are theway, a minimal coding assistant running in a terminal.\n"));
    assert!(p.contains("<tools>\n- Files: read\n</tools>"));
    assert!(p.ends_with(
        "</tools>\n\n<environment>\nCurrent working directory: /w\n<memory>\nremember\n</memory>\n</environment>\n\n<lineage>\nfrom x\n</lineage>"
    ));
    let plain = compose_system_prompt("/w", "", &names(&["read"]), None, Some("Hi."));
    assert!(plain.starts_with("<harness>\nHi.\n"));
    assert!(plain.ends_with("\n\n<environment>\nCurrent working directory: /w\n</environment>"));
    let blank = compose_system_prompt("/w", "", &names(&["read"]), Some(" \n"), Some("Hi."));
    assert_eq!(blank, plain);
}

#[test]
fn lineage_is_rendered() {
    assert_eq!(render_lineage(&None, &None), None);
    assert_eq!(
        render_lineage(&compact("s1", "sum"), &Some("n1".to_string())).unwrap(),
        format!("## Session lineage\n\nCollapse node: n1\nThis session continues from s1.\nPrevious context summary: sum\n{GRAPH_HINT}")
    );
    assert_eq!(
        lineage::render_lineage(&compact("s1", "sum"), &None).unwrap(),
        format!("## Session lineage\n\nThis session continues from s1.\n{GRAPH_HINT}")
    );
    assert_eq!(
        render_lineage(&compact("", ""), &None).unwrap(),
        format!("## Session lineage\n\n{GRAPH_HINT}")
    );
}

#[test]
fn session_prompts_carry_the_lineage() {
    let tools = names(&["read"]);
    let whole = system_prompt_for_session("/w", "m", &tools, &compact("s1", "sum"), &None);
    assert!(whole.contains("Previous context summary: sum\n"));
    let service = ContextService::new("/w", "m", tools, Some("Hi.".to_string()));
    let p = service.system_prompt(&compact("s1", "sum"), &None);
    assert!(p.starts_with("<harness>\nHi.\n"));
    assert!(p.contains("This session continues from s1.\n"));
    assert!(!p.contains("Previous context summary"));
    assert!(!service.system_prompt(&None, &None).contains("<lineage>"));
    let bundle = service.load(Ok(Vec::new()), &Ok(None), &Ok(None)).unwrap();
    assert_eq!(bundle.system_prompt, service.system_prompt(&None, &None));
    assert!(bundle.messages.is_empty());
    let fault = || Err("locked".to_string());
    assert_eq!(service.load(Err("gone".to_string()), &fault(), &Ok(None)).unwrap_err(), "gone");
    assert_eq!(service.load(Ok(Vec::new()), &fault(), &Ok(None)).unwrap_err(), "locked");
    assert_eq!(
        service.load(Ok(Vec::new()), &Ok(None), &Err("lost".to_string())).unwrap_err(),
        "lost"
    );
}

#[test]
fn mentioned_files_become_parts() {
    assert_eq!(mentioned_files(&names(&["b", "a", "b"])), names(&["b", "a"]));
    assert_eq!(leaf_name("src/a.rs"), "a.rs");
    assert_eq!(leaf_name(".."), "..");
    assert_eq!(leaf_name("src/"), "src/");
    assert_eq!(media_type("A.MD"), "text/markdown");
    assert_eq!(media_type("d/x.yml"), "application/yaml");
    assert_eq!(media_type("x.rs"), "text/plain");
    assert_eq!(media_type("x"), "text/plain");
    let parts = file_parts(
        &names(&["gone", "d/x.json"]),
        &vec![
            MentionedFile::Skipped,
            MentionedFile::Stored { digest: "abc".to_string(), bytes: 5, truncated: true },
        ],
    );
    assert_eq!(parts.len(), 1);
    match &parts[0] {
        InputPart::File(f) => {
            assert_eq!((f.path.as_str(), f.name.as_str(), f.digest.as_str()), ("d/x.json", "x.json", "abc"));
            assert_eq!((f.bytes, f.media_type.as_str(), f.truncated), (5, "application/json", true));
        }
        other => panic!("{other:?}"),
    }
}

#[test]
fn images_are_decoded() {
    assert!(check_image_count(4, 4).is_ok());
    assert_eq!(check_image_count(5, 4).unwrap_err(), "5 images exceeds per-message cap of 4");
    let d = decode_prompt_image(&image(Some("shot"), "data:image/png;base64,aGVsbG8="), 0).unwrap();
    assert_eq!(d.bytes, b"hello".to_vec());
    assert_eq!(d.name.as_deref(), Some("shot"));
    assert_eq!(d.label, "clipboard image `shot`");
    let d = decode_prompt_image(&image(Some(" "), "aGk="), 1).unwrap();
    assert_eq!(d.bytes, b"hi".to_vec());
    assert_eq!((d.name, d.label.as_str()), (None, "clipboard image #2"));
    assert_eq!(decode_prompt_image(&image(None, "%%"), 2).unwrap_err(), "decode clipboard image #3");
    assert_eq!(
        decode_prompt_image(&image(Some("a"), "aGVsbG8"), 2).unwrap_err(),
        "decode clipboard image `a`"
    );
    assert_eq!(decoded_image(&image(None, ""), 0, Some(vec![7])).unwrap().bytes, vec![7]);
    match image_part(&None, "abc", 9, "image/png") {
        InputPart::Image(p) => {
            assert_eq!((p.name, p.digest.as_str(), p.bytes, p.media_type.as_str()), (None, "abc", 9, "image/png"));
        }
        other => panic!("{other:?}"),
    }
}

#[test]
fn records_keep_the_users_own_text() {
    let plain = record("hello", Vec::new(), "tui", &None, &None);
    assert_eq!((plain.text.as_str(), plain.parts.len(), plain.source.as_str()), ("hello", 0, "tui"));
    let envelope = SkillEnvelope {
        skill_name: "fix".to_string(),
        user_text: "own".to_string(),
        preamble: "Use it.".to_string(),
    };
    let wrapped = record(
        "whole",
        vec![image_part(&None, "d", 1, "image/png")],
        "tui",
        &Some("ref".to_string()),
        &Some(envelope),
    );
    assert_eq!(wrapped.text, "own");
    assert_eq!(wrapped.source_ref.as_deref(), Some("ref"));
    assert_eq!(wrapped.parts.len(), 2);
    match &wrapped.parts[1] {
        InputPart::Injected(p) => {
            assert_eq!((p.source.as_str(), p.name.as_deref(), p.text.as_str()), ("skill", Some("fix"), "Use it."));
        }
        other => panic!("{other:?}"),
    }
    let more = PromptAdmission::with_injected(
        wrapped,
        InputInjectedPart { source: "hook".to_string(), name: None, text: "t".to_string() },
    );
    assert_eq!(more.parts.len(), 3);
    assert_eq!(more.copy().text, "own");
}

fn begin(mentions: &[&str], images: Vec<PromptImage>) -> (PromptAdmission, AdmissionAction) {
    PromptAdmission::start(
        "look at @a.md".to_string(),
        &mentions.iter().map(|m| m.to_string()).collect(),
        images,
        2,
        "tui".to_string(),
        None,
        None,
    )
}

#[test]
fn inputs_are_recorded_once_everything_is_stored() {
    let (mut p, first) = begin(&["a.md", "gone.txt", "a.md"], vec![image(Some("x"), "data:,aGk=")]);
    assert!(matches!(first, AdmissionAction::CheckImage));
    let decoded = p.decoded.as_ref().unwrap();
    assert_eq!((decoded.label.as_str(), decoded.bytes.as_slice()), ("clipboard image `x`", &b"hi"[..]));
    assert!(matches!(p.step(AdmissionEvent::Stored(Ok("early".to_string()))), AdmissionAction::Wait));
    let checked = AdmissionEvent::Checked(Ok("image/png".to_string()));
    assert!(matches!(p.step(checked), AdmissionAction::ReadFile));
    assert_eq!(p.paths, ["a.md", "gone.txt"]);
    assert!(matches!(p.step(AdmissionEvent::FileRead(Some((12, true)))), AdmissionAction::StoreFile));
    assert!(matches!(p.step(AdmissionEvent::Stored(Ok("d1".to_string()))), AdmissionAction::ReadFile));
    assert!(matches!(p.step(AdmissionEvent::FileRead(None)), AdmissionAction::StoreImage));
    let input = match p.step(AdmissionEvent::Stored(Ok("d2".to_string()))) {
        AdmissionAction::Finish(input) => input,
        other => panic!("{other:?}"),
    };
    assert_eq!((input.text.as_str(), input.source.as_str(), input.parts.len()), ("look at @a.md", "tui", 2));
    match &input.parts[0] {
        InputPart::File(f) => {
            assert_eq!((f.path.as_str(), f.digest.as_str(), f.bytes, f.truncated), ("a.md", "d1", 12, true));
            assert_eq!(f.media_type, "text/markdown");
        }
        other => panic!("{other:?}"),
    }
    match &input.parts[1] {
        InputPart::Image(i) => {
            assert_eq!((i.digest.as_str(), i.bytes, i.media_type.as_str()), ("d2", 2, "image/png"));
            assert_eq!(i.name.as_deref(), Some("x"));
        }
        other => panic!("{other:?}"),
    }
    assert!(matches!(p.step(AdmissionEvent::FileRead(None)), AdmissionAction::Wait));
}

#[test]
fn refused_inputs_store_nothing() {
    let refusal = |a: AdmissionAction| match a {
        AdmissionAction::Fail(e) => e,
        other => panic!("{other:?}"),
    };
    let three = vec![image(None, ""), image(None, ""), image(None, "")];
    assert_eq!(refusal(begin(&["a.md"], three).1), "3 images exceeds per-message cap of 2");
    assert_eq!(refusal(begin(&["a.md"], vec![image(None, "???")]).1), "decode clipboard image #1");
    let (mut p, _) = begin(&["a.md"], vec![image(None, "aGk="), image(None, "???")]);
    let checked = AdmissionEvent::Checked(Ok("image/png".to_string()));
    assert_eq!(refusal(p.step(checked)), "decode clipboard image #2");
    let (mut p, _) = begin(&["a.md"], vec![image(None, "aGk=")]);
    assert_eq!(refusal(p.step(AdmissionEvent::Checked(Err("too large".to_string())))), "too large");
    assert!(p.files.is_empty() && p.digests.is_empty());
    let (mut p, _) = begin(&["a.md"], Vec::new());
    assert!(matches!(p.step(AdmissionEvent::FileRead(Some((1, false)))), AdmissionAction::StoreFile));
    assert_eq!(refusal(p.step(AdmissionEvent::Stored(Err("disk full".to_string())))), "disk full");
    let (p, first) = begin(&[], Vec::new());
    assert!(matches!(first, AdmissionAction::Finish(input) if input.parts.is_empty()));
    assert!(p.files.is_empty());
}

#[test]
fn unanswered_questions_are_refused() {
    let reason = |wait: PromptWait| match resolve(wait) {
        ControlPlanePromptDecision::Deny { reason } => reason,
        ControlPlanePromptDecision::Allow => panic!("allowed"),
    };
    assert_eq!(reason(PromptWait::NoClient).unwrap(), "control-plane prompt client is unavailable");
    assert_eq!(
        reason(PromptWait::Closed).unwrap(),
        "control-plane prompt client closed before a decision"
    );
    assert_eq!(reason(PromptWait::Cancelled).unwrap(), "control-plane prompt cancelled");
    assert_eq!(reason(PromptWait::Answered(ControlPlanePromptDecision::Deny { reason: None })), None);
    assert!(matches!(
        resolve(PromptWait::Answered(ControlPlanePromptDecision::Allow)),
        ControlPlanePromptDecision::Allow
    ));
}

#[test]
fn tool_operations_are_forwarded_to_the_endpoint_in_use() {
    let addr = Some("http://a".to_string());
    assert!(matches!(endpoint_plan(&addr, &addr), EndpointPlan::Reuse));
    match endpoint_plan(&addr, &Some("http://b".to_string())) {
        EndpointPlan::Connect(a) => assert_eq!(a, "http://a"),
        other => panic!("{other:?}"),
    }
    for unset in [None, Some(String::new())] {
        match endpoint_plan(&unset, &addr) {
            EndpointPlan::Unset(m) => assert_eq!(
                m,
                "daemon has no controller tool endpoint configured (tool_service_addr is unset)"
            ),
            other => panic!("{other:?}"),
        }
    }
    assert_eq!(connect_error("http://a", "refused"), "connect tool service http://a: refused");
    assert_eq!(lost_frame("reset"), "tool forwarding error: reset\n");
}

#[test]
fn clients_are_answered() {
    assert!(replied(true, Some(true)));
    assert!(!replied(true, Some(false)));
    assert!(!replied(true, None));
    assert!(!replied(false, Some(true)));
    assert!(accepted(true).unwrap());
    assert_eq!(accepted(false).unwrap_err(), "event loop command channel closed");
    let mut paths = PathContext { work_dir: "/w".to_string(), skills_dirs: names(&["a"]) };
    paths.set_skill_dirs(&names(&["b", "c"]));
    assert_eq!(paths.skills_dirs, names(&["b", "c"]));
    assert_eq!(paths.work_dir, "/w");
}
