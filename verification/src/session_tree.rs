//! The entries of a session tree, as far as the daemon's logic reads them.

use crate::json::{string_member, Json, JsonView};
use crate::text::owned;
use crate::user_input::UserInput;
use vstd::prelude::*;

verus! {

/// The role of a custom message that records a round of user input.
pub const USER_INPUT_ROLE: &'static str = "user_input";

/// One block of a user message.
#[derive(Debug)]
pub enum UserBlock {
    Text(String),
    Image,
}

/// The content of a user message.
#[derive(Debug)]
pub enum UserContent {
    Text(String),
    Blocks(Vec<UserBlock>),
}

/// A message of the assistant.
#[derive(Debug)]
pub struct AssistantMessage {
    /// The texts of its text blocks, in order.
    pub texts: Vec<String>,
    /// Whether the message stopped with an error.
    pub failed: bool,
    pub error_message: Option<String>,
}

/// A message that the model sees.
#[derive(Debug)]
pub enum LlmMessage {
    User(UserContent),
    Assistant(AssistantMessage),
    ToolResult,
}

/// A message that only the daemon and its clients see.
#[derive(Debug)]
pub struct CustomMessage {
    pub role: String,
    /// The round of user input that the payload describes, where it describes one.
    pub input: Option<UserInput>,
}

/// A message of the transcript.
#[derive(Debug)]
pub enum AgentMessage {
    Llm(LlmMessage),
    Custom(CustomMessage),
}

/// One entry of a session tree.
#[derive(Debug)]
pub enum SessionTreeEntry {
    Message { id: String, parent_id: Option<String>, message: AgentMessage },
    /// An entry of a named type with free data.
    Custom { timestamp: String, custom_type: String, data: Option<Json> },
    /// Model and thinking-level changes, labels, compaction markers.
    Other,
}

/// Whether a message is one of the assistant that stopped with an error.
pub open spec fn is_failed_assistant(m: AgentMessage) -> bool {
    m matches AgentMessage::Llm(LlmMessage::Assistant(a)) && a.failed
}

/// Whether an entry holds a user message.
pub open spec fn is_user_message(e: SessionTreeEntry) -> bool {
    e matches SessionTreeEntry::Message { message: AgentMessage::Llm(LlmMessage::User(_)), .. }
}

/// The session identifier in the metadata of a session.
pub open spec fn metadata_id(meta: JsonView) -> Seq<char> {
    match string_member(meta, "id"@) {
        Some(id) => id,
        None => "?"@,
    }
}

/// The session identifier in the metadata of a session, or a question mark.
pub fn session_id_in(meta: &Json) -> (r: String)
    ensures
        r@ == metadata_id(meta@),
{
    match meta.text_member("id") {
        Some(id) => id,
        None => owned("?"),
    }
}

/// A session is known by the text under `id` in its metadata, and by a question mark without
/// one.
pub proof fn law_sessions_are_known_by_their_id(members: Map<Seq<char>, JsonView>, id: Seq<char>)
    ensures
        members.contains_key("id"@) && members["id"@] == JsonView::Str(id) ==> metadata_id(
            JsonView::Object(members),
        ) == id,
        !members.contains_key("id"@) ==> metadata_id(JsonView::Object(members)) == "?"@,
{
}

} // verus!
