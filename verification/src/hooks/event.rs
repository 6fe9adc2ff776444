//! The events that hooks can watch, and what a hook learns of each.

use crate::json::{opt_json, Json, JsonView};
use crate::text::opt_text;
use vstd::prelude::*;

verus! {

/// An event that a hook can watch.
#[derive(Clone, Copy, Debug, PartialEq, Eq, Structural)]
pub enum HookEvent {
    AgentStart,
    AgentEnd,
    TurnStart,
    TurnEnd,
    MessageStart,
    MessageUpdate,
    MessageEnd,
    ToolStart,
    ToolUpdate,
    ToolEnd,
    Compaction,
}

/// The name of an event in configuration files and payloads.
pub open spec fn event_name(event: HookEvent) -> Seq<char> {
    match event {
        HookEvent::AgentStart => "agent_start"@,
        HookEvent::AgentEnd => "agent_end"@,
        HookEvent::TurnStart => "turn_start"@,
        HookEvent::TurnEnd => "turn_end"@,
        HookEvent::MessageStart => "message_start"@,
        HookEvent::MessageUpdate => "message_update"@,
        HookEvent::MessageEnd => "message_end"@,
        HookEvent::ToolStart => "tool_start"@,
        HookEvent::ToolUpdate => "tool_update"@,
        HookEvent::ToolEnd => "tool_end"@,
        HookEvent::Compaction => "compaction"@,
    }
}

/// The event of a name.
pub open spec fn event_named(s: Seq<char>) -> Option<HookEvent> {
    if s == "agent_start"@ {
        Some(HookEvent::AgentStart)
    } else if s == "agent_end"@ {
        Some(HookEvent::AgentEnd)
    } else if s == "turn_start"@ {
        Some(HookEvent::TurnStart)
    } else if s == "turn_end"@ {
        Some(HookEvent::TurnEnd)
    } else if s == "message_start"@ {
        Some(HookEvent::MessageStart)
    } else if s == "message_update"@ {
        Some(HookEvent::MessageUpdate)
    } else if s == "message_end"@ {
        Some(HookEvent::MessageEnd)
    } else if s == "tool_start"@ {
        Some(HookEvent::ToolStart)
    } else if s == "tool_update"@ {
        Some(HookEvent::ToolUpdate)
    } else if s == "tool_end"@ {
        Some(HookEvent::ToolEnd)
    } else if s == "compaction"@ {
        Some(HookEvent::Compaction)
    } else {
        None
    }
}

impl HookEvent {
    /// The event of a name.
    pub fn parse(s: &str) -> (r: Option<HookEvent>)
        ensures
            r == event_named(s@),
    {
        if s.eq("agent_start") {
            Some(HookEvent::AgentStart)
        } else if s.eq("agent_end") {
            Some(HookEvent::AgentEnd)
        } else if s.eq("turn_start") {
            Some(HookEvent::TurnStart)
        } else if s.eq("turn_end") {
            Some(HookEvent::TurnEnd)
        } else if s.eq("message_start") {
            Some(HookEvent::MessageStart)
        } else if s.eq("message_update") {
            Some(HookEvent::MessageUpdate)
        } else if s.eq("message_end") {
            Some(HookEvent::MessageEnd)
        } else if s.eq("tool_start") {
            Some(HookEvent::ToolStart)
        } else if s.eq("tool_update") {
            Some(HookEvent::ToolUpdate)
        } else if s.eq("tool_end") {
            Some(HookEvent::ToolEnd)
        } else if s.eq("compaction") {
            Some(HookEvent::Compaction)
        } else {
            None
        }
    }

    /// The name of an event.
    pub fn as_str(self) -> (r: &'static str)
        ensures
            r@ == event_name(self),
    {
        match self {
            HookEvent::AgentStart => "agent_start",
            HookEvent::AgentEnd => "agent_end",
            HookEvent::TurnStart => "turn_start",
            HookEvent::TurnEnd => "turn_end",
            HookEvent::MessageStart => "message_start",
            HookEvent::MessageUpdate => "message_update",
            HookEvent::MessageEnd => "message_end",
            HookEvent::ToolStart => "tool_start",
            HookEvent::ToolUpdate => "tool_update",
            HookEvent::ToolEnd => "tool_end",
            HookEvent::Compaction => "compaction",
        }
    }
}

/// The name of an event is read back as that event.
pub proof fn law_event_names_round_trip(event: HookEvent)
    ensures
        event_named(event_name(event)) == Some(event),
{
    reveal_strlit("agent_start");
    reveal_strlit("agent_end");
    reveal_strlit("turn_start");
    reveal_strlit("turn_end");
    reveal_strlit("message_start");
    reveal_strlit("message_update");
    reveal_strlit("message_end");
    reveal_strlit("tool_start");
    reveal_strlit("tool_update");
    reveal_strlit("tool_end");
    reveal_strlit("compaction");
    assert("agent_start"@.len() == 11);
    assert("agent_end"@.len() == 9);
    assert("turn_start"@.len() == 10);
    assert("turn_end"@.len() == 8);
    assert("message_start"@.len() == 13);
    assert("message_update"@.len() == 14);
    assert("message_end"@.len() == 11);
    assert("tool_start"@.len() == 10);
    assert("tool_update"@.len() == 11);
    assert("tool_end"@.len() == 8);
    assert("compaction"@.len() == 10);
    assert("agent_start"@[0] == 'a' && "message_end"@[0] == 'm' && "tool_update"@[0] == 't');
    assert("turn_start"@[1] == 'u' && "tool_start"@[1] == 'o' && "compaction"@[0] == 'c');
    assert("turn_start"@[0] == 't' && "tool_start"@[0] == 't');
    assert("turn_end"@[1] == 'u' && "tool_end"@[1] == 'o');
}

/// Only the name of an event is read as that event.
pub proof fn law_only_event_names_are_read(s: Seq<char>)
    ensures
        event_named(s) matches Some(event) ==> event_name(event) == s,
{
}

/// What is shown of a message.
#[derive(Debug)]
pub struct MessageInfo {
    pub kind: String,
    pub summary: String,
}

/// An event of the agent's loop, with what is shown of its messages and results.
#[derive(Debug)]
pub enum LoopEvent {
    RunStarted,
    RunEnded,
    TurnStart,
    TurnCompleted { message: MessageInfo },
    MessageStart { message: MessageInfo },
    MessageUpdate { message: MessageInfo, assistant_event: String },
    MessageEnd { message: MessageInfo },
    ToolExecutionStart { tool_call_id: String, tool_name: String, args: Json },
    ToolExecutionUpdate {
        tool_call_id: String,
        tool_name: String,
        args: Json,
        partial_result: String,
    },
    ToolExecutionEnd { tool_call_id: String, tool_name: String, result: String, is_error: bool },
    ControlPlanePromptResolved,
}

/// An event of the session.
#[derive(Debug)]
pub enum SessionEvent {
    Compaction { trigger: String, summary: String, tokens_before: u64 },
    Started,
    Branch,
    PersistenceError,
    TurnDecision,
    SkillsReloaded,
}

/// What a hook learns of an event.
#[derive(Debug)]
pub struct EventData {
    pub event: HookEvent,
    pub message_kind: Option<String>,
    pub message_summary: Option<String>,
    pub assistant_event: Option<String>,
    pub tool_call_id: Option<String>,
    pub tool_name: Option<String>,
    pub tool_is_error: Option<bool>,
    pub tool_args: Option<Json>,
    pub tool_result_summary: Option<String>,
    pub compaction_trigger: Option<String>,
    pub compaction_tokens_before: Option<u64>,
    pub compaction_summary: Option<String>,
}

/// The content of an `EventData`.
pub struct EventDataView {
    pub event: HookEvent,
    pub message_kind: Option<Seq<char>>,
    pub message_summary: Option<Seq<char>>,
    pub assistant_event: Option<Seq<char>>,
    pub tool_call_id: Option<Seq<char>>,
    pub tool_name: Option<Seq<char>>,
    pub tool_is_error: Option<bool>,
    pub tool_args: Option<JsonView>,
    pub tool_result_summary: Option<Seq<char>>,
    pub compaction_trigger: Option<Seq<char>>,
    pub compaction_tokens_before: Option<u64>,
    pub compaction_summary: Option<Seq<char>>,
}

impl View for EventData {
    type V = EventDataView;

    open spec fn view(&self) -> EventDataView {
        EventDataView {
            event: self.event,
            message_kind: opt_text(self.message_kind),
            message_summary: opt_text(self.message_summary),
            assistant_event: opt_text(self.assistant_event),
            tool_call_id: opt_text(self.tool_call_id),
            tool_name: opt_text(self.tool_name),
            tool_is_error: self.tool_is_error,
            tool_args: opt_json(self.tool_args),
            tool_result_summary: opt_text(self.tool_result_summary),
            compaction_trigger: opt_text(self.compaction_trigger),
            compaction_tokens_before: self.compaction_tokens_before,
            compaction_summary: opt_text(self.compaction_summary),
        }
    }
}

/// What a hook learns of an event that has nothing but its name.
pub open spec fn basic_data(event: HookEvent) -> EventDataView {
    EventDataView {
        event,
        message_kind: None,
        message_summary: None,
        assistant_event: None,
        tool_call_id: None,
        tool_name: None,
        tool_is_error: None,
        tool_args: None,
        tool_result_summary: None,
        compaction_trigger: None,
        compaction_tokens_before: None,
        compaction_summary: None,
    }
}

/// What a hook learns of an event with a message.
pub open spec fn message_data(event: HookEvent, message: MessageInfo) -> EventDataView {
    EventDataView {
        message_kind: Some(message.kind@),
        message_summary: Some(message.summary@),
        ..basic_data(event)
    }
}

/// What a hook learns of an event of the agent's loop; nothing of a prompt that the control
/// plane resolved.
pub open spec fn agent_event_data(event: LoopEvent) -> Option<EventDataView> {
    match event {
        LoopEvent::RunStarted => Some(basic_data(HookEvent::AgentStart)),
        LoopEvent::RunEnded => Some(basic_data(HookEvent::AgentEnd)),
        LoopEvent::TurnStart => Some(basic_data(HookEvent::TurnStart)),
        LoopEvent::TurnCompleted { message } => Some(message_data(HookEvent::TurnEnd, message)),
        LoopEvent::MessageStart { message } => Some(
            message_data(HookEvent::MessageStart, message),
        ),
        LoopEvent::MessageUpdate { message, assistant_event } => Some(
            (EventDataView {
                assistant_event: Some(assistant_event@),
                ..message_data(HookEvent::MessageUpdate, message)
            }),
        ),
        LoopEvent::MessageEnd { message } => Some(message_data(HookEvent::MessageEnd, message)),
        LoopEvent::ToolExecutionStart { tool_call_id, tool_name, args } => Some(
            (EventDataView {
                tool_call_id: Some(tool_call_id@),
                tool_name: Some(tool_name@),
                tool_args: Some(args@),
                ..basic_data(HookEvent::ToolStart)
            }),
        ),
        LoopEvent::ToolExecutionUpdate { tool_call_id, tool_name, args, partial_result } => Some(
            (EventDataView {
                tool_call_id: Some(tool_call_id@),
                tool_name: Some(tool_name@),
                tool_args: Some(args@),
                tool_result_summary: Some(partial_result@),
                ..basic_data(HookEvent::ToolUpdate)
            }),
        ),
        LoopEvent::ToolExecutionEnd { tool_call_id, tool_name, result, is_error } => Some(
            (EventDataView {
                tool_call_id: Some(tool_call_id@),
                tool_name: Some(tool_name@),
                tool_is_error: Some(is_error),
                tool_result_summary: Some(result@),
                ..basic_data(HookEvent::ToolEnd)
            }),
        ),
        LoopEvent::ControlPlanePromptResolved => None,
    }
}

/// What a hook learns of an event of the session: only compactions are watched.
pub open spec fn session_event_data(event: SessionEvent) -> Option<EventDataView> {
    match event {
        SessionEvent::Compaction { trigger, summary, tokens_before } => Some(
            (EventDataView {
                compaction_trigger: Some(trigger@),
                compaction_tokens_before: Some(tokens_before),
                compaction_summary: Some(summary@),
                ..basic_data(HookEvent::Compaction)
            }),
        ),
        _ => None,
    }
}

pub open spec fn opt_data(o: Option<EventData>) -> Option<EventDataView> {
    match o {
        Some(d) => Some(d@),
        None => None,
    }
}

impl EventData {
    fn basic(event: HookEvent) -> (r: EventData)
        ensures
            r@ == basic_data(event),
    {
        EventData {
            event,
            message_kind: None,
            message_summary: None,
            assistant_event: None,
            tool_call_id: None,
            tool_name: None,
            tool_is_error: None,
            tool_args: None,
            tool_result_summary: None,
            compaction_trigger: None,
            compaction_tokens_before: None,
            compaction_summary: None,
        }
    }

    fn with_message(event: HookEvent, message: &MessageInfo) -> (r: EventData)
        ensures
            r@ == message_data(event, *message),
    {
        let mut d = EventData::basic(event);
        d.message_kind = Some(message.kind.clone());
        d.message_summary = Some(message.summary.clone());
        d
    }

    /// What a hook learns of an event of the agent's loop.
    pub fn from_agent_event(event: &LoopEvent) -> (r: Option<EventData>)
        ensures
            opt_data(r) == agent_event_data(*event),
    {
        match event {
            LoopEvent::RunStarted => Some(EventData::basic(HookEvent::AgentStart)),
            LoopEvent::RunEnded => Some(EventData::basic(HookEvent::AgentEnd)),
            LoopEvent::TurnStart => Some(EventData::basic(HookEvent::TurnStart)),
            LoopEvent::TurnCompleted { message } => Some(
                EventData::with_message(HookEvent::TurnEnd, message),
            ),
            LoopEvent::MessageStart { message } => Some(
                EventData::with_message(HookEvent::MessageStart, message),
            ),
            LoopEvent::MessageUpdate { message, assistant_event } => {
                let mut d = EventData::with_message(HookEvent::MessageUpdate, message);
                d.assistant_event = Some(assistant_event.clone());
                Some(d)
            },
            LoopEvent::MessageEnd { message } => Some(
                EventData::with_message(HookEvent::MessageEnd, message),
            ),
            LoopEvent::ToolExecutionStart { tool_call_id, tool_name, args } => {
                let mut d = EventData::basic(HookEvent::ToolStart);
                d.tool_call_id = Some(tool_call_id.clone());
                d.tool_name = Some(tool_name.clone());
                d.tool_args = Some(args.copy());
                Some(d)
            },
            LoopEvent::ToolExecutionUpdate { tool_call_id, tool_name, args, partial_result } => {
                let mut d = EventData::basic(HookEvent::ToolUpdate);
                d.tool_call_id = Some(tool_call_id.clone());
                d.tool_name = Some(tool_name.clone());
                d.tool_args = Some(args.copy());
                d.tool_result_summary = Some(partial_result.clone());
                Some(d)
            },
            LoopEvent::ToolExecutionEnd { tool_call_id, tool_name, result, is_error } => {
                let mut d = EventData::basic(HookEvent::ToolEnd);
                d.tool_call_id = Some(tool_call_id.clone());
                d.tool_name = Some(tool_name.clone());
                d.tool_is_error = Some(*is_error);
                d.tool_result_summary = Some(result.clone());
                Some(d)
            },
            LoopEvent::ControlPlanePromptResolved => None,
        }
    }

    /// What a hook learns of an event of the session.
    pub fn from_harness_event(event: &SessionEvent) -> (r: Option<EventData>)
        ensures
            opt_data(r) == session_event_data(*event),
    {
        match event {
            SessionEvent::Compaction { trigger, summary, tokens_before } => {
                let mut d = EventData::basic(HookEvent::Compaction);
                d.compaction_trigger = Some(trigger.clone());
                d.compaction_tokens_before = Some(*tokens_before);
                d.compaction_summary = Some(summary.clone());
                Some(d)
            },
            _ => None,
        }
    }
}

/// The name of a tool goes with the events of tools alone, so that a rule for a tool fires
/// on those only.
pub proof fn law_only_tool_events_name_a_tool(event: LoopEvent)
    ensures
        agent_event_data(event) matches Some(d) ==> (d.tool_name is Some <==> (
        d.event is ToolStart || d.event is ToolUpdate || d.event is ToolEnd)),
{
}

/// What a hook learns of a call of a tool is what the loop says of it: its number, its name,
/// its arguments while it runs, and what came of it.
pub proof fn law_tool_events_tell_of_the_call(event: LoopEvent)
    ensures
        event matches LoopEvent::ToolExecutionStart { tool_call_id, tool_name, args } ==> (
        agent_event_data(event) matches Some(d) && d.tool_call_id == Some(tool_call_id@)
            && d.tool_name == Some(tool_name@) && d.tool_args == Some(args@)
            && d.tool_result_summary is None && d.tool_is_error is None),
        event matches LoopEvent::ToolExecutionUpdate {
            tool_call_id,
            tool_name,
            args,
            partial_result,
        } ==> (agent_event_data(event) matches Some(d) && d.tool_call_id == Some(tool_call_id@)
            && d.tool_name == Some(tool_name@) && d.tool_args == Some(args@)
            && d.tool_result_summary == Some(partial_result@) && d.tool_is_error is None),
        event matches LoopEvent::ToolExecutionEnd { tool_call_id, tool_name, result, is_error } ==> (
        agent_event_data(event) matches Some(d) && d.tool_call_id == Some(tool_call_id@)
            && d.tool_name == Some(tool_name@) && d.tool_args is None && d.tool_result_summary
            == Some(result@) && d.tool_is_error == Some(is_error)),
        agent_event_data(event) is None <==> event is ControlPlanePromptResolved,
{
}

/// What a hook learns of a message is its kind and its summary, and of an update what the
/// assistant did.
pub proof fn law_message_events_tell_of_the_message(event: LoopEvent, m: MessageInfo)
    ensures
        event == (LoopEvent::TurnCompleted { message: m }) || event == (LoopEvent::MessageStart {
            message: m,
        }) || event == (LoopEvent::MessageEnd { message: m }) ==> (agent_event_data(event)
            matches Some(d) && d.message_kind == Some(m.kind@) && d.message_summary == Some(
            m.summary@,
        ) && d.assistant_event is None),
        event matches LoopEvent::MessageUpdate { message, assistant_event } ==> (agent_event_data(
            event,
        ) matches Some(d) && d.message_kind == Some(message.kind@) && d.message_summary == Some(
            message.summary@,
        ) && d.assistant_event == Some(assistant_event@)),
{
}

/// Of the events of a session only a compaction is watched, with its cause, its summary and its
/// size.
pub proof fn law_only_compactions_are_watched(event: SessionEvent)
    ensures
        session_event_data(event) is Some <==> event is Compaction,
        event matches SessionEvent::Compaction { trigger, summary, tokens_before } ==> (
        session_event_data(event) matches Some(d) && d.event == HookEvent::Compaction
            && d.compaction_trigger == Some(trigger@) && d.compaction_summary == Some(summary@)
            && d.compaction_tokens_before == Some(tokens_before) && d.tool_name is None),
{
}

/// Each event of the loop is told under its own kind, and under no other.
pub proof fn law_each_event_has_its_own_kind(event: LoopEvent, d: EventDataView)
    requires
        agent_event_data(event) == Some(d),
    ensures
        d.event is AgentStart <==> event is RunStarted,
        d.event is AgentEnd <==> event is RunEnded,
        d.event is TurnStart <==> event is TurnStart,
        d.event is TurnEnd <==> event is TurnCompleted,
        d.event is MessageStart <==> event is MessageStart,
        d.event is MessageUpdate <==> event is MessageUpdate,
        d.event is MessageEnd <==> event is MessageEnd,
        d.event is ToolStart <==> event is ToolExecutionStart,
        d.event is ToolUpdate <==> event is ToolExecutionUpdate,
        d.event is ToolEnd <==> event is ToolExecutionEnd,
        !(d.event is Compaction),
        d.compaction_trigger is None,
        d.compaction_summary is None,
        d.compaction_tokens_before is None,
{
}

} // verus!
