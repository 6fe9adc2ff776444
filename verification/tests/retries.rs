use theway_daemon::agent_session::{
    assistant_error_message, backoff_ms, drop_failed_assistant, is_retryable_error, rewind_target,
    run_error, AgentSession, PromptAction, PromptEvent, RetryRun, RetrySettings, RetryStep,
};
use theway_daemon::session_tree::{
    AgentMessage, AssistantMessage, LlmMessage, SessionTreeEntry, UserContent,
};

fn assistant(text: &str, error: Option<&str>) -> AgentMessage {
    AgentMessage::Llm(LlmMessage::Assistant(AssistantMessage {
        texts: vec![text.to_string()],
        failed: error.is_some(),
        error_message: error.map(|e| e.to_string()),
    }))
}

fn user(text: &str) -> AgentMessage {
    AgentMessage::Llm(LlmMessage::User(UserContent::Text(text.to_string())))
}

fn is_failed(message: &AgentMessage) -> bool {
    match message {
        AgentMessage::Llm(LlmMessage::Assistant(a)) => a.failed,
        _ => false,
    }
}

#[test]
fn every_server_failure_is_worth_a_retry() {
    assert!(is_retryable_error("HTTP 520"));
    assert!(is_retryable_error("status 599"));
    assert!(is_retryable_error("HTTP 501 not implemented"));
    assert!(!is_retryable_error("HTTP 404"));
}

#[test]
fn retryable_patterns_match_ts_regex() {
    assert!(is_retryable_error("overloaded_error"));
    assert!(is_retryable_error(
        "Provider returned error: 429 Too Many Requests"
    ));
    assert!(is_retryable_error("rate limit exceeded"));
    assert!(is_retryable_error("HTTP 503 Service Unavailable"));
    assert!(is_retryable_error("websocket closed"));
    assert!(is_retryable_error("stream ended before message_stop"));
    assert!(is_retryable_error("socket hang up"));
    assert!(is_retryable_error("reset before headers"));
    assert!(!is_retryable_error("bad request: missing field"));
    assert!(!is_retryable_error("Unauthorized"));
    assert!(!is_retryable_error("model not found"));
}

#[test]
fn backoff_grows_and_caps() {
    assert_eq!(backoff_ms(1, 1000, 60_000), 1000);
    assert_eq!(backoff_ms(2, 1000, 60_000), 2000);
    assert_eq!(backoff_ms(9, 1000, 60_000), 60_000);
}

#[test]
fn backoff_edges() {
    assert_eq!(backoff_ms(0, 1000, 60_000), 1000);
    assert_eq!(backoff_ms(6, 1000, 60_000), 32_000);
    assert_eq!(backoff_ms(7, 1000, 60_000), 60_000);
    assert_eq!(backoff_ms(11, 1, u64::MAX), 1024);
    assert_eq!(backoff_ms(12, 1, u64::MAX), 1024);
    assert_eq!(backoff_ms(u32::MAX, u64::MAX, u64::MAX), u64::MAX);
    assert_eq!(backoff_ms(3, 0, 0), 0);
}

#[test]
fn retry_rewinds_failed_assistant_out_of_active_session_branch() {
    let settings = RetrySettings {
        base_delay_ms: 0,
        max_delay_ms: 0,
        max_retries: 1,
        ..RetrySettings::default()
    };
    let mut run = RetryRun::start();
    assert!(run.sends_prompt());

    let entries = vec![
        SessionTreeEntry::Message {
            id: "u".to_string(),
            parent_id: None,
            message: user("hi"),
        },
        SessionTreeEntry::Message {
            id: "a".to_string(),
            parent_id: Some("u".to_string()),
            message: assistant("temporary failure", Some("HTTP 503")),
        },
    ];
    let mut active = vec![user("hi"), assistant("temporary failure", Some("HTTP 503"))];
    let error = run_error(&Ok(()), &active).expect("the run failed");
    assert_eq!(error, "HTTP 503");
    match run.after_error(&settings, &error) {
        RetryStep::Retry { delay_ms } => assert_eq!(delay_ms, 0),
        _ => panic!("a server failure is retried"),
    }
    assert_eq!(rewind_target(entries.last()), Some(Some("u".to_string())));
    drop_failed_assistant(&mut active);
    assert!(!run.sends_prompt());
    active.push(assistant("ok", None));
    assert!(run_error(&Ok(()), &active).is_none());

    assert!(entries.iter().any(|e| match e {
        SessionTreeEntry::Message { message, .. } => is_failed(message),
        _ => false,
    }));
    assert!(!active.iter().any(is_failed));
    assert!(active.iter().any(|m| matches!(
        m,
        AgentMessage::Llm(LlmMessage::Assistant(a)) if !a.failed
    )));
}

#[test]
fn settings_by_default() {
    let settings = RetrySettings::default();
    assert!(settings.enabled);
    assert_eq!(settings.max_retries, 5);
    assert_eq!(settings.base_delay_ms, 1_000);
    assert_eq!(settings.max_delay_ms, 60_000);
    assert!(settings.fallback_model.is_none());
}

#[test]
fn fallback_comes_once_and_then_the_error() {
    let settings = RetrySettings {
        max_retries: 1,
        fallback_model: Some(("openai".to_string(), "gpt".to_string())),
        ..RetrySettings::default()
    };
    let mut run = RetryRun::start();
    assert!(matches!(
        run.after_error(&settings, "overloaded"),
        RetryStep::Retry { delay_ms: 1_000 }
    ));
    match run.after_error(&settings, "overloaded") {
        RetryStep::Fallback { provider, model_id } => {
            assert_eq!(provider, "openai");
            assert_eq!(model_id, "gpt");
        }
        _ => panic!("the fallback model follows the last retry"),
    }
    assert!(run.fallback_looked_up(true));
    assert!(run.sends_prompt());
    assert!(matches!(
        run.after_error(&settings, "overloaded"),
        RetryStep::Retry { .. }
    ));
    assert!(matches!(
        run.after_error(&settings, "overloaded"),
        RetryStep::Fail
    ));
}

#[test]
fn a_missing_fallback_model_keeps_the_attempts() {
    let settings = RetrySettings {
        max_retries: 0,
        fallback_model: Some(("openai".to_string(), "gpt".to_string())),
        ..RetrySettings::default()
    };
    let mut run = RetryRun::start();
    assert!(matches!(
        run.after_error(&settings, "timeout"),
        RetryStep::Fallback { .. }
    ));
    assert!(!run.fallback_looked_up(false));
    assert!(matches!(
        run.after_error(&settings, "timeout"),
        RetryStep::Fail
    ));
}

#[test]
fn other_errors_and_disabled_retries_fail_at_once() {
    let mut run = RetryRun::start();
    assert!(matches!(
        run.after_error(&RetrySettings::default(), "Unauthorized"),
        RetryStep::Fail
    ));
    let off = RetrySettings {
        enabled: false,
        ..RetrySettings::default()
    };
    assert!(matches!(
        run.after_error(&off, "overloaded"),
        RetryStep::Fail
    ));
    assert_eq!(run.attempt, 0);
}

#[test]
fn errors_of_the_last_assistant_message() {
    let silent = AssistantMessage {
        texts: Vec::new(),
        failed: true,
        error_message: None,
    };
    assert_eq!(
        assistant_error_message(Some(&silent)),
        Some("assistant stopped with an error".to_string())
    );
    assert_eq!(assistant_error_message(None), None);
    assert_eq!(
        run_error(&Err("network".to_string()), &Vec::new()),
        Some("network".to_string())
    );
    assert!(rewind_target(Some(&SessionTreeEntry::Other)).is_none());
}

#[test]
fn only_trailing_failures_are_dropped() {
    let mut messages = vec![
        assistant("a", Some("x")),
        user("b"),
        assistant("c", Some("x")),
        assistant("d", Some("x")),
    ];
    drop_failed_assistant(&mut messages);
    assert_eq!(messages.len(), 2);
    assert!(is_failed(&messages[0]));
}

fn one_retry(fallback_model: Option<(String, String)>) -> AgentSession {
    AgentSession::new(RetrySettings {
        base_delay_ms: 10,
        max_delay_ms: 10,
        max_retries: 1,
        fallback_model,
        ..RetrySettings::default()
    })
}

fn failed_leaf() -> SessionTreeEntry {
    SessionTreeEntry::Message {
        id: "a".to_string(),
        parent_id: Some("u".to_string()),
        message: assistant("", Some("HTTP 503")),
    }
}

fn overloaded() -> PromptEvent {
    PromptEvent::Ran(Some("overloaded".to_string()))
}

#[test]
fn prompts_are_repeated_after_a_rewind() {
    let mut session = one_retry(Some(("p".to_string(), "m".to_string())));
    assert!(matches!(session.step(PromptEvent::Waited), PromptAction::Ignore));
    assert!(matches!(session.prompt(), PromptAction::Prompt));
    assert!(matches!(session.step(overloaded()), PromptAction::Wait { delay_ms: 10 }));
    assert!(matches!(session.step(PromptEvent::Waited), PromptAction::ReadLeaf));
    let action = session.step(PromptEvent::LeafRead(Ok(Some("a".to_string()))));
    assert!(matches!(action, PromptAction::ReadEntry(id) if id == "a"));
    let action = session.step(PromptEvent::EntryRead(Ok(Some(failed_leaf()))));
    assert!(matches!(action, PromptAction::Move(Some(id)) if id == "u"));
    assert!(matches!(session.step(PromptEvent::Moved(Ok(()))), PromptAction::Continue));
    match session.step(overloaded()) {
        PromptAction::LookUp { provider, model_id } => {
            assert_eq!((provider.as_str(), model_id.as_str()), ("p", "m"));
        }
        other => panic!("{other:?}"),
    }
    assert!(matches!(session.step(PromptEvent::LookedUp(true)), PromptAction::ReadLeaf));
    assert!(matches!(session.step(PromptEvent::LeafRead(Ok(None))), PromptAction::SetModel));
    assert!(matches!(session.step(PromptEvent::ModelSet(Ok(()))), PromptAction::Prompt));
    assert!(matches!(session.step(PromptEvent::Ran(None)), PromptAction::Finish));
}

#[test]
fn prompts_fail_with_what_went_wrong() {
    let fault = |a: PromptAction| match a {
        PromptAction::Fail(e) => e,
        other => panic!("{other:?}"),
    };
    let lost = || Err("lost".to_string());
    let mut session = one_retry(Some(("p".to_string(), "m".to_string())));
    session.prompt();
    assert_eq!(fault(session.step(PromptEvent::Ran(Some("Unauthorized".to_string())))), "Unauthorized");
    session.prompt();
    session.step(overloaded());
    session.step(PromptEvent::Waited);
    assert_eq!(
        fault(session.step(PromptEvent::LeafRead(Err("lost".to_string())))),
        "session retry leaf lookup: lost"
    );
    session.prompt();
    session.step(overloaded());
    session.step(PromptEvent::Waited);
    session.step(PromptEvent::LeafRead(Ok(Some("a".to_string()))));
    assert_eq!(
        fault(session.step(PromptEvent::EntryRead(Err("lost".to_string())))),
        "session retry leaf entry lookup: lost"
    );
    session.prompt();
    session.step(overloaded());
    session.step(PromptEvent::Waited);
    session.step(PromptEvent::LeafRead(Ok(Some("a".to_string()))));
    session.step(PromptEvent::EntryRead(Ok(Some(failed_leaf()))));
    assert_eq!(fault(session.step(PromptEvent::Moved(lost()))), "session retry rewind: lost");
    session.prompt();
    session.step(overloaded());
    session.step(PromptEvent::Waited);
    session.step(PromptEvent::LeafRead(Ok(None)));
    session.step(PromptEvent::Ran(Some("timeout".to_string())));
    assert_eq!(fault(session.step(PromptEvent::LookedUp(false))), "timeout");
    session.prompt();
    session.step(overloaded());
    session.step(PromptEvent::Waited);
    session.step(PromptEvent::LeafRead(Ok(None)));
    session.step(overloaded());
    session.step(PromptEvent::LookedUp(true));
    session.step(PromptEvent::LeafRead(Ok(None)));
    assert_eq!(
        fault(session.step(PromptEvent::ModelSet(lost()))),
        "fallback set_model failed: lost"
    );
}
