use theway_daemon::feed_replay::{
    entries_wire_blocks, is_user_input_record, message_entries, paired_user_inputs,
    replay_transcript, session_tree_entry_wire_blocks, PairedInput, TranscriptItem,
};
use theway_daemon::session_tree::{
    AgentMessage, AssistantMessage, CustomMessage, LlmMessage, SessionTreeEntry, UserContent,
    USER_INPUT_ROLE,
};
use theway_daemon::user_input::{InputFilePart, InputPart, UserInput};

fn user(text: &str) -> AgentMessage {
    AgentMessage::Llm(LlmMessage::User(UserContent::Text(text.to_string())))
}

fn assistant(text: &str) -> AgentMessage {
    AgentMessage::Llm(LlmMessage::Assistant(AssistantMessage {
        texts: vec![text.to_string()],
        failed: false,
        error_message: None,
    }))
}

fn control_plane() -> AgentMessage {
    AgentMessage::Custom(CustomMessage {
        role: "control_plane_prompt".to_string(),
        input: None,
    })
}

fn message_entry(id: &str, message: AgentMessage) -> SessionTreeEntry {
    SessionTreeEntry::Message {
        id: id.to_string(),
        parent_id: None,
        message,
    }
}

fn record_entry(id: &str, input: &UserInput) -> SessionTreeEntry {
    message_entry(
        id,
        AgentMessage::Custom(CustomMessage {
            role: USER_INPUT_ROLE.to_string(),
            input: Some(input.copy()),
        }),
    )
}

fn malformed_record_entry(id: &str) -> SessionTreeEntry {
    message_entry(
        id,
        AgentMessage::Custom(CustomMessage {
            role: USER_INPUT_ROLE.to_string(),
            input: None,
        }),
    )
}

fn recorded_input() -> UserInput {
    UserInput {
        text: "look at @src/foo.rs".to_string(),
        parts: vec![InputPart::File(InputFilePart {
            path: "src/foo.rs".to_string(),
            name: "foo.rs".to_string(),
            digest: "sha256:00".to_string(),
            bytes: 12,
            media_type: "text/plain".to_string(),
            truncated: false,
        })],
        source: "user".to_string(),
        source_ref: None,
    }
}

fn message_of(entries: &[SessionTreeEntry], item: &TranscriptItem) -> String {
    let TranscriptItem::Message(i) = item else {
        panic!("not a message: {item:?}");
    };
    let SessionTreeEntry::Message { message, .. } = &entries[*i] else {
        panic!("not a message entry");
    };
    match message {
        AgentMessage::Llm(LlmMessage::User(UserContent::Text(t))) => format!("user {t}"),
        AgentMessage::Llm(LlmMessage::Assistant(a)) => format!("assistant {}", a.texts[0]),
        _ => panic!("not a message that is shown"),
    }
}

fn input_of(item: &TranscriptItem) -> &UserInput {
    match item {
        TranscriptItem::UserInput(input) => input,
        TranscriptItem::Message(_) => panic!("not a record: {item:?}"),
    }
}

#[test]
fn replay_transcript_replays_llm_messages_and_skips_custom() {
    let entries = message_entries(vec![
        user("hello"),
        assistant("world"),
        control_plane(),
        user("again"),
    ]);
    let items = replay_transcript(&entries);
    assert_eq!(items.len(), 3, "{items:?}");
    assert_eq!(message_of(&entries, &items[0]), "user hello");
    assert_eq!(message_of(&entries, &items[1]), "assistant world");
    assert_eq!(message_of(&entries, &items[2]), "user again");
}

#[test]
fn replay_transcript_matches_replay_messages_without_records() {
    let entries = message_entries(vec![
        user("hello"),
        assistant("world"),
        control_plane(),
        user("again"),
    ]);
    let shown: Vec<usize> = entries
        .iter()
        .enumerate()
        .filter(|(_, e)| {
            matches!(
                e,
                SessionTreeEntry::Message {
                    message: AgentMessage::Llm(_),
                    ..
                }
            )
        })
        .map(|(i, _)| i)
        .collect();
    let items: Vec<usize> = replay_transcript(&entries)
        .iter()
        .map(|item| match item {
            TranscriptItem::Message(i) => *i,
            TranscriptItem::UserInput(_) => panic!("no record was made"),
        })
        .collect();
    assert_eq!(items, shown);
}

#[test]
fn replay_transcript_no_limit_keeps_everything() {
    let entries = message_entries(vec![user("a"), assistant("b")]);
    assert_eq!(replay_transcript(&entries).len(), 2);
}

#[test]
fn replay_transcript_renders_record_and_message_as_one_user_block() {
    let input = recorded_input();
    let entries = vec![
        record_entry("record-1", &input),
        message_entry("message-1", user("look at @src/foo.rs with file contents")),
    ];
    let items = replay_transcript(&entries);
    assert_eq!(items.len(), 2, "the record, then the message it replaces: {items:?}");
    assert_eq!(
        message_of(&entries, &items[1]),
        "user look at @src/foo.rs with file contents"
    );
    let shown = input_of(&items[0]);
    assert_eq!(
        shown.text, "look at @src/foo.rs",
        "record text, not materialized text"
    );
    assert_eq!(shown.parts.len(), 1);
    match &shown.parts[0] {
        InputPart::File(file) => {
            assert_eq!(file.name, "foo.rs");
            assert_eq!(file.path, "src/foo.rs");
        }
        other => panic!("not a file: {other:?}"),
    }
    assert_eq!(shown.source, "user");
}

#[test]
fn replay_transcript_falls_back_for_a_malformed_record() {
    let entries = vec![
        malformed_record_entry("record-1"),
        message_entry("message-1", user("materialized text")),
    ];
    assert!(paired_user_inputs(&entries).is_empty());
    let items = replay_transcript(&entries);
    assert_eq!(items.len(), 1, "{items:?}");
    assert_eq!(message_of(&entries, &items[0]), "user materialized text");
}

#[test]
fn paired_user_inputs_keys_the_following_user_message() {
    let input = recorded_input();
    let branch = vec![
        record_entry("record-1", &input),
        message_entry("message-1", user("materialized")),
        message_entry("message-2", user("later prompt")),
    ];
    let paired = paired_user_inputs(&branch);
    assert_eq!(paired.len(), 1);
    assert_eq!(paired[0].id, "message-1");
    assert_eq!(paired[0].input.text, input.text);
}

#[test]
fn entries_wire_blocks_renders_a_paired_message_from_an_earlier_page() {
    let input = recorded_input();
    let branch = vec![
        record_entry("record-1", &input),
        message_entry("message-1", user("materialized")),
    ];
    let paired = paired_user_inputs(&branch);
    let page = vec![message_entry("message-1", user("materialized"))];
    let items = entries_wire_blocks(&page, &paired);
    assert_eq!(items.len(), 2, "{items:?}");
    assert_eq!(message_of(&page, &items[1]), "user materialized");
    let shown = input_of(&items[0]);
    assert_eq!(shown.text, "look at @src/foo.rs");
    assert_eq!(shown.parts.len(), 1);
}

#[test]
fn entries_wire_blocks_renders_the_record_once_within_a_page() {
    let input = recorded_input();
    let page = vec![
        record_entry("record-1", &input),
        message_entry("message-1", user("materialized")),
    ];
    let paired = paired_user_inputs(&page);
    let items = entries_wire_blocks(&page, &paired);
    let records = items
        .iter()
        .filter(|item| matches!(item, TranscriptItem::UserInput(_)))
        .count();
    assert_eq!(records, 1, "{items:?}");
    assert_eq!(items.len(), 2, "{items:?}");
    assert_eq!(message_of(&page, &items[1]), "user materialized");
    assert_eq!(input_of(&items[0]).text, "look at @src/foo.rs");
}

#[test]
fn session_tree_entry_wire_blocks_filters_non_message_entries() {
    let message = message_entry("entry-1", user("hello"));
    let items = session_tree_entry_wire_blocks(message).expect("message entry converts");
    assert_eq!(items.len(), 1);
    assert!(session_tree_entry_wire_blocks(SessionTreeEntry::Other).is_none());
    assert!(
        session_tree_entry_wire_blocks(message_entry("entry-3", control_plane())).is_none()
    );
    let record = record_entry("entry-4", &recorded_input());
    assert!(is_user_input_record(&record));
    assert!(session_tree_entry_wire_blocks(record).is_none());
}

#[test]
fn a_record_without_a_message_after_it_is_shown_itself() {
    let input = recorded_input();
    let entries = vec![
        record_entry("record-1", &input),
        message_entry("message-1", assistant("hello")),
    ];
    assert!(paired_user_inputs(&entries).is_empty());
    let items = replay_transcript(&entries);
    assert_eq!(items.len(), 2, "{items:?}");
    assert_eq!(input_of(&items[0]).text, "look at @src/foo.rs");
}

#[test]
fn pages_give_together_what_the_whole_gives() {
    let input = recorded_input();
    let all = |from: usize, to: usize| -> Vec<SessionTreeEntry> {
        let mut v = vec![
            message_entry("m-0", user("first")),
            record_entry("r-1", &input),
            message_entry("m-1", user("materialized")),
            message_entry("m-2", assistant("done")),
        ];
        v.truncate(to);
        v.drain(..from);
        v
    };
    let whole = all(0, 4);
    let paired: Vec<PairedInput> = paired_user_inputs(&whole);
    let shown = entries_wire_blocks(&whole, &paired).len();
    for cut in 0..5 {
        let first = entries_wire_blocks(&all(0, cut), &paired);
        let second = entries_wire_blocks(&all(cut, 4), &paired);
        let texts: Vec<&str> = first
            .iter()
            .chain(second.iter())
            .filter_map(|item| match item {
                TranscriptItem::UserInput(i) => Some(i.text.as_str()),
                TranscriptItem::Message(_) => None,
            })
            .collect();
        assert!(texts.iter().all(|t| *t == "look at @src/foo.rs"), "{cut}");
        assert!(first.len() + second.len() >= shown, "{cut}");
    }
}
