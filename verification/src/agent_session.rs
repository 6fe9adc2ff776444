//! Automatic retries of a prompt.
//!
//! A run that fails with an error that is worth retrying is repeated after a growing delay,
//! up to a number of times. When the retries of the model are used up, the run may move to a
//! fallback model, once. Every repetition first drops the failed message of the assistant.

use crate::patterns::{compile, matches_in, regex_error, regex_matches};
use crate::session_tree::{
    is_failed_assistant, AgentMessage, AssistantMessage, LlmMessage, SessionTreeEntry,
};
use crate::text::{opt_text, owned};
use crate::user_input::copy_opt;
use vstd::prelude::*;

verus! {

/// How a failed prompt is retried.
#[derive(Debug)]
pub struct RetrySettings {
    pub enabled: bool,
    pub max_retries: u32,
    pub base_delay_ms: u64,
    pub max_delay_ms: u64,
    /// The provider and the model to move to when the retries are used up.
    pub fallback_model: Option<(String, String)>,
}

impl Default for RetrySettings {
    fn default() -> (r: RetrySettings)
        ensures
            r.enabled,
            r.max_retries == 5,
            r.base_delay_ms == 1_000,
            r.max_delay_ms == 60_000,
            r.fallback_model is None,
    {
        RetrySettings {
            enabled: true,
            max_retries: 5,
            base_delay_ms: 1_000,
            max_delay_ms: 60_000,
            fallback_model: None,
        }
    }
}

/// The errors that are worth a retry: overload, rate limits, server and network failures,
/// and streams that ended early.
pub const RETRYABLE_PATTERN: &'static str =
    "(?i)overloaded|provider.?returned.?error|rate.?limit|too many requests|429|5\\d\\d|service.?unavailable|server.?error|internal.?error|network.?error|connection.?error|connection.?refused|connection.?lost|websocket.?closed|websocket.?error|other side closed|fetch failed|upstream.?connect|reset before headers|socket hang up|ended without|stream ended before message_stop|http2 request did not get a response|timed? out|timeout|terminated|retry delay";

/// Whether an error message is one that is worth a retry.
pub open spec fn retryable(message: Seq<char>) -> bool {
    regex_error(RETRYABLE_PATTERN@) is None && regex_matches(RETRYABLE_PATTERN@, message)
}

/// Whether an error message is one that is worth a retry.
pub fn is_retryable_error(err_message: &str) -> (r: bool)
    ensures
        r == retryable(err_message@),
{
    match compile(RETRYABLE_PATTERN) {
        Ok(expression) => matches_in(&expression, err_message),
        Err(_) => false,
    }
}

// Delays.

/// `base`, doubled `k` times.
pub open spec fn doubled(base: nat, k: nat) -> nat
    decreases k,
{
    if k == 0 {
        base
    } else {
        2 * doubled(base, (k - 1) as nat)
    }
}

/// The delay before an attempt: the base delay, doubled for each attempt after the first up
/// to ten times, and no more than the maximum.
pub open spec fn backoff(attempt: nat, base: nat, max: nat) -> nat {
    let k = if attempt == 0 {
        0
    } else if attempt - 1 <= 10 {
        (attempt - 1) as nat
    } else {
        10
    };
    let d = doubled(base, k);
    if d <= max {
        d
    } else {
        max
    }
}

/// The delay before an attempt, in milliseconds.
pub fn backoff_ms(attempt: u32, base: u64, max: u64) -> (r: u64)
    ensures
        r == backoff(attempt as nat, base as nat, max as nat),
{
    let exponent: u32 = if attempt == 0 {
        0
    } else if attempt - 1 <= 10 {
        attempt - 1
    } else {
        10
    };
    let mut n: u128 = base as u128;
    let mut k: u32 = 0;
    while k < exponent
        invariant
            k <= exponent <= 10,
            n == doubled(base as nat, k as nat),
        decreases exponent - k,
    {
        proof {
            reveal_with_fuel(doubled, 11);
            lemma_doubled_grows(base as nat, (k + 1) as nat, 10);
            assert(doubled(base as nat, 10) == 1024 * base);
        }
        n = n * 2;
        k += 1;
    }
    if n <= max as u128 {
        n as u64
    } else {
        max
    }
}

proof fn lemma_doubled_grows(base: nat, j: nat, k: nat)
    requires
        j <= k,
    ensures
        doubled(base, j) <= doubled(base, k),
    decreases k,
{
    if j < k {
        lemma_doubled_grows(base, j, (k - 1) as nat);
    }
}

/// Delays never shrink from one attempt to the next, never exceed the maximum, and the first
/// is the base delay where the maximum allows it.
pub proof fn law_backoff_grows_and_caps(attempt: nat, base: nat, max: nat)
    ensures
        backoff(attempt, base, max) <= backoff(attempt + 1, base, max),
        backoff(attempt, base, max) <= max,
        base <= max ==> backoff(1, base, max) == base,
{
    let k = if attempt == 0 {
        0
    } else if attempt - 1 <= 10 {
        (attempt - 1) as nat
    } else {
        10
    };
    let m = if attempt <= 10 {
        attempt
    } else {
        10
    };
    lemma_doubled_grows(base, k, m);
}

// The outcome of a run.

/// The position of the last message of the assistant among the first `n`.
pub open spec fn last_assistant_pos(messages: Seq<AgentMessage>, n: int) -> Option<int>
    decreases n,
{
    if n <= 0 || n > messages.len() {
        None
    } else if messages[n - 1] matches AgentMessage::Llm(LlmMessage::Assistant(_)) {
        Some(n - 1)
    } else {
        last_assistant_pos(messages, n - 1)
    }
}

/// Whether no message of the assistant stands at a position or after it.
pub open spec fn no_assistant_from(messages: Seq<AgentMessage>, from: int) -> bool {
    forall|j: int|
        from <= j < messages.len() ==> !((#[trigger] messages[j]) matches AgentMessage::Llm(
            LlmMessage::Assistant(_),
        ))
}

proof fn lemma_last_assistant(messages: Seq<AgentMessage>, n: int)
    requires
        0 <= n <= messages.len(),
    ensures
        match last_assistant_pos(messages, n) {
            Some(i) => {
                &&& 0 <= i < n
                &&& messages[i] matches AgentMessage::Llm(LlmMessage::Assistant(_))
                &&& forall|j: int|
                    i < j < n ==> !((#[trigger] messages[j]) matches AgentMessage::Llm(
                        LlmMessage::Assistant(_),
                    ))
            },
            None => forall|j: int|
                0 <= j < n ==> !((#[trigger] messages[j]) matches AgentMessage::Llm(
                    LlmMessage::Assistant(_),
                )),
        },
    decreases n,
{
    if n > 0 {
        lemma_last_assistant(messages, n - 1);
    }
}

/// The last message of the assistant.
pub fn last_assistant(messages: &Vec<AgentMessage>) -> (r: Option<&AssistantMessage>)
    ensures
        match last_assistant_pos(messages@, messages@.len() as int) {
            Some(i) => messages@[i] matches AgentMessage::Llm(LlmMessage::Assistant(a)) && r
                == Some(&a),
            None => r is None,
        },
        r matches Some(a) ==> exists|i: int|
            0 <= i < messages@.len() && (#[trigger] messages@[i]) == AgentMessage::Llm(
                LlmMessage::Assistant(*a),
            ) && no_assistant_from(messages@, i + 1),
        r is None ==> no_assistant_from(messages@, 0),
{
    let mut n: usize = messages.len();
    while n > 0
        invariant
            n <= messages@.len(),
            last_assistant_pos(messages@, messages@.len() as int) == last_assistant_pos(
                messages@,
                n as int,
            ),
        decreases n,
    {
        if let AgentMessage::Llm(LlmMessage::Assistant(a)) = &messages[n - 1] {
            proof {
                lemma_last_assistant(messages@, messages@.len() as int);
                assert(last_assistant_pos(messages@, messages@.len() as int) == Some(n - 1));
                assert(messages@[n - 1] == AgentMessage::Llm(LlmMessage::Assistant(*a)));
                assert(no_assistant_from(messages@, (n - 1) + 1));
            }
            return Some(a);
        }
        n -= 1;
    }
    proof {
        lemma_last_assistant(messages@, messages@.len() as int);
    }
    None
}

/// The error that a message of the assistant stands for.
pub open spec fn error_in(a: Option<&AssistantMessage>) -> Option<Seq<char>> {
    match a {
        Some(a) => if a.failed {
            match a.error_message {
                Some(e) => Some(e@),
                None => Some("assistant stopped with an error"@),
            }
        } else {
            None
        },
        None => None,
    }
}

/// The error that a message of the assistant stands for.
pub fn assistant_error_message(a: Option<&AssistantMessage>) -> (r: Option<String>)
    ensures
        opt_text(r) == error_in(a),
{
    match a {
        Some(a) => if a.failed {
            match &a.error_message {
                Some(e) => Some(e.clone()),
                None => Some(owned("assistant stopped with an error")),
            }
        } else {
            None
        },
        None => None,
    }
}

/// The error of a run that reported an outcome and left messages behind.
pub open spec fn failure_of(outcome: Result<(), String>, messages: Seq<AgentMessage>) -> Option<
    Seq<char>,
> {
    match outcome {
        Err(e) => Some(e@),
        Ok(_) => match last_assistant_pos(messages, messages.len() as int) {
            Some(i) => match messages[i] {
                AgentMessage::Llm(LlmMessage::Assistant(a)) => error_in(Some(&a)),
                _ => None,
            },
            None => None,
        },
    }
}

/// The error of a run: what the run reports, or what the last message of the assistant
/// stands for. A run without either succeeded.
pub fn run_error(outcome: &Result<(), String>, messages: &Vec<AgentMessage>) -> (r: Option<String>)
    ensures
        opt_text(r) == failure_of(*outcome, messages@),
{
    match outcome {
        Err(e) => Some(e.clone()),
        Ok(_) => assistant_error_message(last_assistant(messages)),
    }
}

// The retry loop.

/// Where a prompt stands in its retries.
#[derive(Debug)]
pub struct RetryRun {
    /// Retries of the current model so far.
    pub attempt: u32,
    /// Whether the fallback model was already tried.
    pub fallback_used: bool,
}

/// What to do after a run has failed.
#[derive(Debug)]
pub enum RetryStep {
    /// Hand the error to the caller.
    Fail,
    /// Wait, drop the failed message, and continue.
    Retry { delay_ms: u64 },
    /// Look the fallback model up, and report back whether it exists.
    Fallback { provider: String, model_id: String },
}

impl RetryRun {
    /// A prompt that has not been run yet.
    pub fn start() -> (r: RetryRun)
        ensures
            r.attempt == 0,
            !r.fallback_used,
    {
        RetryRun { attempt: 0, fallback_used: false }
    }

    /// Whether the next run sends the prompt, and not only continues from where it stands.
    pub fn sends_prompt(&self) -> (r: bool)
        ensures
            r == (self.attempt == 0),
    {
        self.attempt == 0
    }

    /// What to do after a run has failed with an error that is or is not worth a retry.
    pub fn after_failure(&mut self, settings: &RetrySettings, worth_retry: bool) -> (r: RetryStep)
        ensures
            retry_step(*old(self), *settings, worth_retry, r, *final(self)),
    {
        if !settings.enabled || !worth_retry {
            return RetryStep::Fail;
        }
        if self.attempt >= settings.max_retries {
            if let Some((provider, model_id)) = &settings.fallback_model {
                if !self.fallback_used {
                    self.fallback_used = true;
                    return RetryStep::Fallback {
                        provider: provider.clone(),
                        model_id: model_id.clone(),
                    };
                }
            }
            return RetryStep::Fail;
        }
        self.attempt = self.attempt + 1;
        RetryStep::Retry {
            delay_ms: backoff_ms(self.attempt, settings.base_delay_ms, settings.max_delay_ms),
        }
    }

    /// What to do after a run has failed with an error message.
    pub fn after_error(&mut self, settings: &RetrySettings, error: &str) -> (r: RetryStep)
        ensures
            retry_step(*old(self), *settings, retryable(error@), r, *final(self)),
    {
        let worth_retry = is_retryable_error(error);
        self.after_failure(settings, worth_retry)
    }

    /// Starts over with the fallback model, where there is one: the failed message is
    /// dropped, the model is set, and the prompt is sent again. Without one the error goes
    /// to the caller.
    pub fn fallback_looked_up(&mut self, found: bool) -> (r: bool)
        ensures
            r == found,
            final(self).fallback_used == old(self).fallback_used,
            final(self).attempt == if found {
                0
            } else {
                old(self).attempt
            },
    {
        if found {
            self.attempt = 0;
        }
        found
    }
}

/// What a failed run leads to, and where the prompt stands then.
pub open spec fn retry_step(
    before: RetryRun,
    settings: RetrySettings,
    worth_retry: bool,
    step: RetryStep,
    after: RetryRun,
) -> bool {
    if !settings.enabled || !worth_retry {
        step is Fail && after == before
    } else if before.attempt < settings.max_retries {
        &&& after.attempt == before.attempt + 1
        &&& after.fallback_used == before.fallback_used
        &&& step matches RetryStep::Retry { delay_ms } && delay_ms == backoff(
            after.attempt as nat,
            settings.base_delay_ms as nat,
            settings.max_delay_ms as nat,
        )
    } else {
        match settings.fallback_model {
            Some(m) => if before.fallback_used {
                step is Fail && after == before
            } else {
                &&& after.attempt == before.attempt
                &&& after.fallback_used
                &&& step matches RetryStep::Fallback { provider, model_id } && provider@ == m.0@
                    && model_id@ == m.1@
            },
            None => step is Fail && after == before,
        }
    }
}

/// How many more failed runs a prompt can go through at most.
pub open spec fn retries_left(run: RetryRun, settings: RetrySettings) -> int {
    (if run.fallback_used {
        0
    } else {
        settings.max_retries + 1
    }) + (settings.max_retries - run.attempt)
}

/// A prompt is not retried forever: each retry, and the move to the fallback model, uses up
/// one of the runs that are left, so a prompt runs at most twice the number of retries plus
/// two times.
pub proof fn law_retries_end(
    before: RetryRun,
    settings: RetrySettings,
    worth_retry: bool,
    step: RetryStep,
    after: RetryRun,
)
    requires
        before.attempt <= settings.max_retries,
        retry_step(before, settings, worth_retry, step, after),
    ensures
        after.attempt <= settings.max_retries,
        retries_left(after, settings) >= 0,
        step is Retry ==> retries_left(after, settings) == retries_left(before, settings) - 1,
        step is Fallback ==> retries_left(
            RetryRun { attempt: 0, fallback_used: true },
            settings,
        ) < retries_left(before, settings),
        retries_left(RetryRun { attempt: 0, fallback_used: false }, settings) + 1 == 2 * (
        settings.max_retries + 1),
{
}

/// The fallback model is tried at most once.
pub proof fn law_fallback_is_used_once(
    before: RetryRun,
    settings: RetrySettings,
    worth_retry: bool,
    step: RetryStep,
    after: RetryRun,
)
    requires
        retry_step(before, settings, worth_retry, step, after),
    ensures
        step is Fallback ==> !before.fallback_used && after.fallback_used,
        before.fallback_used ==> after.fallback_used,
{
}

// Rewinding.

/// How many of the first `n` messages stay when failed messages of the assistant are dropped
/// from the end.
pub open spec fn kept_messages(messages: Seq<AgentMessage>, n: int) -> int
    decreases n,
{
    if n > 0 && n <= messages.len() && is_failed_assistant(messages[n - 1]) {
        kept_messages(messages, n - 1)
    } else {
        n
    }
}

/// Drops the failed messages of the assistant from the end.
pub fn drop_failed_assistant(messages: &mut Vec<AgentMessage>)
    ensures
        final(messages)@ == old(messages)@.take(
            kept_messages(old(messages)@, old(messages)@.len() as int),
        ),
{
    let ghost all = messages@;
    assert(all.take(all.len() as int) =~= all);
    while messages.len() > 0
        invariant
            messages@.len() <= all.len(),
            messages@ == all.take(messages@.len() as int),
            kept_messages(all, all.len() as int) == kept_messages(all, messages@.len() as int),
        ensures
            messages@ == all.take(kept_messages(all, all.len() as int)),
        decreases messages@.len(),
    {
        let last = messages.len() - 1;
        let failed = match &messages[last] {
            AgentMessage::Llm(LlmMessage::Assistant(a)) => a.failed,
            _ => false,
        };
        assert(all[last as int] == messages@[last as int]);
        if !failed {
            break;
        }
        messages.pop();
        assert(messages@ =~= all.take(last as int));
    }
}

/// The entry to move the session to before a retry: the parent of the leaf, where the leaf is
/// a failed message of the assistant.
pub fn rewind_target(leaf: Option<&SessionTreeEntry>) -> (r: Option<Option<String>>)
    ensures
        match leaf {
            Some(SessionTreeEntry::Message { parent_id, message, .. }) => if is_failed_assistant(
                *message,
            ) {
                r == Some(*parent_id)
            } else {
                r is None
            },
            _ => r is None,
        },
{
    match leaf {
        Some(
            SessionTreeEntry::Message {
                parent_id,
                message: AgentMessage::Llm(LlmMessage::Assistant(a)),
                ..
            },
        ) => if a.failed {
            Some(copy_opt(parent_id))
        } else {
            None
        },
        _ => None,
    }
}

// The prompt as a whole.

/// Where a prompt stands.
#[derive(Clone, Copy, Debug, PartialEq, Eq, Structural)]
pub enum PromptStage {
    /// The model runs.
    Running,
    /// The delay before a retry is waited for.
    Waiting,
    /// The fallback model is looked up.
    LookingUp,
    /// The failed message is taken out of the session: its leaf is looked up, then the entry
    /// of the leaf, then the session is moved.
    ReadingLeaf,
    ReadingEntry,
    Moving,
    /// The fallback model is being set.
    SettingModel,
    /// No prompt is under way.
    Done,
}

/// A session whose prompts are retried.
#[derive(Debug)]
pub struct AgentSession {
    pub settings: RetrySettings,
    pub run: RetryRun,
    pub stage: PromptStage,
    /// Whether the session is rewound for the fallback model, and not for a retry.
    pub falls_back: bool,
    /// What the last run failed with.
    pub error: String,
}

/// What has come back from outside.
#[derive(Debug)]
pub enum PromptEvent {
    /// What the run failed with, where it did.
    Ran(Option<String>),
    Waited,
    /// Whether the fallback model is known.
    LookedUp(bool),
    LeafRead(Result<Option<String>, String>),
    EntryRead(Result<Option<SessionTreeEntry>, String>),
    Moved(Result<(), String>),
    ModelSet(Result<(), String>),
}

/// What is to be done next.
#[derive(Debug)]
pub enum PromptAction {
    /// Run the model on the prompt.
    Prompt,
    /// Run the model from where the session stands.
    Continue,
    Wait { delay_ms: u64 },
    LookUp { provider: String, model_id: String },
    /// Drop the failed messages from the state of the agent, and read the leaf of the session.
    ReadLeaf,
    ReadEntry(String),
    Move(Option<String>),
    /// Set the fallback model.
    SetModel,
    Finish,
    Fail(String),
    /// The event was not awaited.
    Ignore,
}

/// Whether the model runs next: on the prompt at first, later from where the session stands.
pub open spec fn runs_model(a: PromptAction, q: AgentSession) -> bool {
    &&& q.stage == PromptStage::Running
    &&& if q.run.attempt == 0 {
        a is Prompt
    } else {
        a is Continue
    }
}

/// Whether a prompt ends with a message.
pub open spec fn fails_prompt(a: PromptAction, q: AgentSession, message: Seq<char>) -> bool {
    &&& a matches PromptAction::Fail(m)
    &&& m@ == message
    &&& q.stage == PromptStage::Done
}

/// What follows a run that failed: the error, a delay, or the search for the fallback model.
pub open spec fn after_failed_run(p: AgentSession, error: Seq<char>, a: PromptAction, q: AgentSession) -> bool {
    &&& q.error@ == error
    &&& if !p.settings.enabled || !retryable(error) {
        q.run == p.run && fails_prompt(a, q, error)
    } else if p.run.attempt < p.settings.max_retries {
        &&& q.run.attempt == p.run.attempt + 1
        &&& q.run.fallback_used == p.run.fallback_used
        &&& q.stage == PromptStage::Waiting
        &&& a matches PromptAction::Wait { delay_ms }
        &&& delay_ms == backoff(
            q.run.attempt as nat,
            p.settings.base_delay_ms as nat,
            p.settings.max_delay_ms as nat,
        )
    } else {
        match p.settings.fallback_model {
            Some(m) => if p.run.fallback_used {
                q.run == p.run && fails_prompt(a, q, error)
            } else {
                &&& q.run.attempt == p.run.attempt
                &&& q.run.fallback_used
                &&& q.stage == PromptStage::LookingUp
                &&& a matches PromptAction::LookUp { provider, model_id }
                &&& provider@ == m.0@
                &&& model_id@ == m.1@
            },
            None => q.run == p.run && fails_prompt(a, q, error),
        }
    }
}

/// What follows once the session is rewound.
pub open spec fn after_rewind(p: AgentSession, a: PromptAction, q: AgentSession) -> bool {
    if p.falls_back {
        a is SetModel && q.stage == PromptStage::SettingModel
    } else {
        runs_model(a, q)
    }
}

/// Whether a prompt keeps its run, its purpose and its error.
pub open spec fn keeps_run(p: AgentSession, q: AgentSession) -> bool {
    q.run == p.run && q.falls_back == p.falls_back && q.error == p.error
}

/// One step of a prompt: from where it stands, and what has come back, to what is done next.
pub open spec fn prompt_step(
    p: AgentSession,
    event: PromptEvent,
    a: PromptAction,
    q: AgentSession,
) -> bool {
    &&& q.settings == p.settings
    &&& match (p.stage, event) {
        (PromptStage::Running, PromptEvent::Ran(None)) => {
            &&& keeps_run(p, q)
            &&& a is Finish
            &&& q.stage == PromptStage::Done
        },
        (PromptStage::Running, PromptEvent::Ran(Some(e))) => after_failed_run(p, e@, a, q),
        (PromptStage::Waiting, PromptEvent::Waited) => {
            &&& q.run == p.run
            &&& !q.falls_back
            &&& a is ReadLeaf
            &&& q.stage == PromptStage::ReadingLeaf
        },
        (PromptStage::LookingUp, PromptEvent::LookedUp(found)) => if found {
            &&& q.run.attempt == 0
            &&& q.run.fallback_used == p.run.fallback_used
            &&& q.falls_back
            &&& a is ReadLeaf
            &&& q.stage == PromptStage::ReadingLeaf
        } else {
            q.run == p.run && fails_prompt(a, q, p.error@)
        },
        (PromptStage::ReadingLeaf, PromptEvent::LeafRead(read)) => keeps_run(p, q) && match read {
            Ok(Some(id)) => {
                &&& a matches PromptAction::ReadEntry(i)
                &&& i@ == id@
                &&& q.stage == PromptStage::ReadingEntry
            },
            Ok(None) => after_rewind(p, a, q),
            Err(e) => fails_prompt(a, q, "session retry leaf lookup: "@ + e@),
        },
        (PromptStage::ReadingEntry, PromptEvent::EntryRead(read)) => keeps_run(p, q) && match read {
            Ok(Some(SessionTreeEntry::Message { parent_id, message, .. })) => if is_failed_assistant(
                message,
            ) {
                &&& a matches PromptAction::Move(target)
                &&& target == parent_id
                &&& q.stage == PromptStage::Moving
            } else {
                after_rewind(p, a, q)
            },
            Ok(_) => after_rewind(p, a, q),
            Err(e) => fails_prompt(a, q, "session retry leaf entry lookup: "@ + e@),
        },
        (PromptStage::Moving, PromptEvent::Moved(moved)) => keeps_run(p, q) && match moved {
            Ok(_) => after_rewind(p, a, q),
            Err(e) => fails_prompt(a, q, "session retry rewind: "@ + e@),
        },
        (PromptStage::SettingModel, PromptEvent::ModelSet(set)) => keeps_run(p, q) && match set {
            Ok(_) => runs_model(a, q),
            Err(e) => fails_prompt(a, q, "fallback set_model failed: "@ + e@),
        },
        _ => keeps_run(p, q) && a is Ignore && q.stage == p.stage,
    }
}

impl AgentSession {
    /// A session without a prompt.
    pub fn new(settings: RetrySettings) -> (r: AgentSession)
        ensures
            r.settings == settings,
            r.stage == PromptStage::Done,
    {
        AgentSession {
            settings,
            run: RetryRun::start(),
            stage: PromptStage::Done,
            falls_back: false,
            error: String::new(),
        }
    }

    /// Begins a prompt.
    pub fn prompt(&mut self) -> (r: PromptAction)
        ensures
            final(self).settings == old(self).settings,
            final(self).run.attempt == 0,
            !final(self).run.fallback_used,
            r is Prompt,
            runs_model(r, *final(self)),
    {
        self.run = RetryRun::start();
        self.stage = PromptStage::Running;
        PromptAction::Prompt
    }

    fn run_model(&mut self) -> (r: PromptAction)
        ensures
            final(self).settings == old(self).settings,
            keeps_run(*old(self), *final(self)),
            runs_model(r, *final(self)),
    {
        self.stage = PromptStage::Running;
        if self.run.sends_prompt() {
            PromptAction::Prompt
        } else {
            PromptAction::Continue
        }
    }

    fn rewound(&mut self) -> (r: PromptAction)
        ensures
            final(self).settings == old(self).settings,
            keeps_run(*old(self), *final(self)),
            after_rewind(*old(self), r, *final(self)),
    {
        if self.falls_back {
            self.stage = PromptStage::SettingModel;
            return PromptAction::SetModel;
        }
        self.run_model()
    }

    fn fail(&mut self, prefix: &str, error: &str) -> (r: PromptAction)
        ensures
            final(self).settings == old(self).settings,
            keeps_run(*old(self), *final(self)),
            fails_prompt(r, *final(self), prefix@ + error@),
    {
        self.stage = PromptStage::Done;
        let mut m = owned(prefix);
        m.push_str(error);
        PromptAction::Fail(m)
    }

    fn failed_run(&mut self, error: String) -> (r: PromptAction)
        ensures
            final(self).settings == old(self).settings,
            after_failed_run(*old(self), error@, r, *final(self)),
    {
        let step = self.run.after_error(&self.settings, error.as_str());
        self.error = error;
        match step {
            RetryStep::Fail => {
                self.stage = PromptStage::Done;
                PromptAction::Fail(self.error.clone())
            },
            RetryStep::Retry { delay_ms } => {
                self.stage = PromptStage::Waiting;
                PromptAction::Wait { delay_ms }
            },
            RetryStep::Fallback { provider, model_id } => {
                self.stage = PromptStage::LookingUp;
                PromptAction::LookUp { provider, model_id }
            },
        }
    }

    /// Takes what has come back from outside, and says what to do next.
    pub fn step(&mut self, event: PromptEvent) -> (r: PromptAction)
        ensures
            prompt_step(*old(self), event, r, *final(self)),
    {
        match (self.stage, event) {
            (PromptStage::Running, PromptEvent::Ran(None)) => {
                self.stage = PromptStage::Done;
                PromptAction::Finish
            },
            (PromptStage::Running, PromptEvent::Ran(Some(e))) => self.failed_run(e),
            (PromptStage::Waiting, PromptEvent::Waited) => {
                self.falls_back = false;
                self.stage = PromptStage::ReadingLeaf;
                PromptAction::ReadLeaf
            },
            (PromptStage::LookingUp, PromptEvent::LookedUp(found)) => {
                if !self.run.fallback_looked_up(found) {
                    self.stage = PromptStage::Done;
                    return PromptAction::Fail(self.error.clone());
                }
                self.falls_back = true;
                self.stage = PromptStage::ReadingLeaf;
                PromptAction::ReadLeaf
            },
            (PromptStage::ReadingLeaf, PromptEvent::LeafRead(read)) => match read {
                Ok(Some(id)) => {
                    self.stage = PromptStage::ReadingEntry;
                    PromptAction::ReadEntry(id)
                },
                Ok(None) => self.rewound(),
                Err(e) => self.fail("session retry leaf lookup: ", e.as_str()),
            },
            (PromptStage::ReadingEntry, PromptEvent::EntryRead(read)) => match read {
                Ok(entry) => match rewind_target(entry.as_ref()) {
                    Some(target) => {
                        self.stage = PromptStage::Moving;
                        PromptAction::Move(target)
                    },
                    None => self.rewound(),
                },
                Err(e) => self.fail("session retry leaf entry lookup: ", e.as_str()),
            },
            (PromptStage::Moving, PromptEvent::Moved(moved)) => match moved {
                Ok(_) => self.rewound(),
                Err(e) => self.fail("session retry rewind: ", e.as_str()),
            },
            (PromptStage::SettingModel, PromptEvent::ModelSet(set)) => match set {
                Ok(_) => self.run_model(),
                Err(e) => self.fail("fallback set_model failed: ", e.as_str()),
            },
            _ => PromptAction::Ignore,
        }
    }
}

/// A run is repeated only once the session was rewound: the step before it ends the rewinding,
/// or the setting of the fallback model, which itself follows the rewinding.
pub proof fn law_repeats_follow_a_rewind(
    p: AgentSession,
    event: PromptEvent,
    a: PromptAction,
    q: AgentSession,
)
    requires
        prompt_step(p, event, a, q),
    ensures
        a is Prompt || a is Continue || a is SetModel ==> p.stage == PromptStage::ReadingLeaf
            || p.stage == PromptStage::ReadingEntry || p.stage == PromptStage::Moving || (p.stage
            == PromptStage::SettingModel && !(a is SetModel)),
{
}

/// How far a prompt is from its end.
pub open spec fn prompt_left(p: AgentSession) -> int {
    match p.stage {
        PromptStage::Running => 8 * retries_left(p.run, p.settings) + 7,
        PromptStage::Waiting => 8 * (retries_left(p.run, p.settings) + 1) + 6,
        PromptStage::LookingUp => 8 * (p.settings.max_retries + 1) + 6,
        PromptStage::ReadingLeaf => 8 * (retries_left(p.run, p.settings) + 1) + 5,
        PromptStage::ReadingEntry => 8 * (retries_left(p.run, p.settings) + 1) + 4,
        PromptStage::Moving => 8 * (retries_left(p.run, p.settings) + 1) + 3,
        PromptStage::SettingModel => 8 * (retries_left(p.run, p.settings) + 1) + 2,
        PromptStage::Done => 0,
    }
}

/// A prompt ends: every event that it awaits brings it nearer to its end, and the retries stay
/// within their number.
pub proof fn law_prompts_end(p: AgentSession, event: PromptEvent, a: PromptAction, q: AgentSession)
    requires
        p.run.attempt <= p.settings.max_retries,
        p.stage == PromptStage::LookingUp ==> p.run.fallback_used,
        prompt_step(p, event, a, q),
        !(a is Ignore),
    ensures
        q.run.attempt <= q.settings.max_retries,
        q.stage == PromptStage::LookingUp ==> q.run.fallback_used,
        0 <= prompt_left(q) < prompt_left(p),
{
}

proof fn lemma_kept_messages(messages: Seq<AgentMessage>, n: int)
    requires
        0 <= n <= messages.len(),
    ensures
        0 <= kept_messages(messages, n) <= n,
        kept_messages(messages, n) > 0 ==> !is_failed_assistant(
            messages[kept_messages(messages, n) - 1],
        ),
        forall|i: int| kept_messages(messages, n) <= i < n ==> is_failed_assistant(messages[i]),
    decreases n,
{
    if n > 0 && is_failed_assistant(messages[n - 1]) {
        lemma_kept_messages(messages, n - 1);
    }
}

/// What a retry continues from does not end in a failed message, and nothing but failed
/// messages was dropped.
pub proof fn law_rewind_drops_only_failures(messages: Seq<AgentMessage>)
    ensures
        ({
            let kept = kept_messages(messages, messages.len() as int);
            &&& 0 <= kept <= messages.len()
            &&& kept > 0 ==> !is_failed_assistant(messages[kept - 1])
            &&& forall|i: int| kept <= i < messages.len() ==> is_failed_assistant(messages[i])
        }),
{
    lemma_kept_messages(messages, messages.len() as int);
}

/// The message of the assistant that counts stands at a position after which no other stands;
/// where none counts, the assistant has said nothing.
pub proof fn law_last_message_of_the_assistant_counts(messages: Seq<AgentMessage>, i: int)
    ensures
        last_assistant_pos(messages, messages.len() as int) == Some(i) <==> {
            &&& 0 <= i < messages.len()
            &&& messages[i] matches AgentMessage::Llm(LlmMessage::Assistant(_))
            &&& forall|j: int|
                i < j < messages.len() ==> !((#[trigger] messages[j]) matches AgentMessage::Llm(
                    LlmMessage::Assistant(_),
                ))
        },
{
    lemma_last_assistant(messages, messages.len() as int);
}

/// A run that reports an error failed with it, whatever it left behind.
pub proof fn law_reported_errors_count_first(e: String, messages: Seq<AgentMessage>)
    ensures
        failure_of(Err(e), messages) == Some(e@),
{
}

/// A run that reports no error failed exactly where the newest message of the assistant did,
/// whatever stands before that message: with its error message, or with a text of its own where
/// the message has none.
pub proof fn law_newest_answer_decides_the_run(
    before: Seq<AgentMessage>,
    a: AssistantMessage,
    after: Seq<AgentMessage>,
)
    requires
        forall|j: int|
            0 <= j < after.len() ==> !((#[trigger] after[j]) matches AgentMessage::Llm(
                LlmMessage::Assistant(_),
            )),
    ensures
        ({
            let failure = failure_of(
                Ok(()),
                before.push(AgentMessage::Llm(LlmMessage::Assistant(a))) + after,
            );
            &&& !a.failed ==> failure is None
            &&& a.failed ==> failure == Some(
                if a.error_message is Some {
                    a.error_message->0@
                } else {
                    "assistant stopped with an error"@
                },
            )
        }),
{
    let all = before.push(AgentMessage::Llm(LlmMessage::Assistant(a))) + after;
    let at = before.len() as int;
    assert(all[at] == AgentMessage::Llm(LlmMessage::Assistant(a)));
    assert forall|j: int| at < j < all.len() implies !((#[trigger] all[j]) matches AgentMessage::Llm(
        LlmMessage::Assistant(_),
    )) by {
        assert(all[j] == after[j - at - 1]);
    }
    law_last_message_of_the_assistant_counts(all, at);
}

/// A run that reports no error and leaves no message of the assistant behind succeeded.
pub proof fn law_silent_runs_succeed(messages: Seq<AgentMessage>)
    requires
        forall|j: int|
            0 <= j < messages.len() ==> !((#[trigger] messages[j]) matches AgentMessage::Llm(
                LlmMessage::Assistant(_),
            )),
    ensures
        failure_of(Ok(()), messages) is None,
{
    lemma_last_assistant(messages, messages.len() as int);
}

/// The delay doubles from each attempt to the next, as long as the maximum allows it and up to
/// the eleventh attempt, from which on it stays.
pub proof fn law_backoff_doubles(attempt: nat, base: nat, max: nat)
    ensures
        1 <= attempt <= 10 && 2 * backoff(attempt, base, max) <= max && backoff(attempt, base, max)
            < max ==> backoff(attempt + 1, base, max) == 2 * backoff(attempt, base, max),
        1 <= attempt <= 10 && 2 * backoff(attempt, base, max) > max ==> backoff(
            attempt + 1,
            base,
            max,
        ) == max,
        attempt >= 11 ==> backoff(attempt + 1, base, max) == backoff(attempt, base, max),
        backoff(0, base, max) == backoff(1, base, max),
        backoff(1, base, max) == if base <= max {
            base
        } else {
            max
        },
{
    if 1 <= attempt <= 10 {
        assert(doubled(base, attempt) == 2 * doubled(base, (attempt - 1) as nat));
    }
}

/// A run that failed is repeated exactly where retries are on, the error is worth one, and
/// there is a retry left; each repetition is counted, and waits no longer than the maximum.
pub proof fn law_failed_runs_are_repeated(
    before: RetryRun,
    settings: RetrySettings,
    worth_retry: bool,
    step: RetryStep,
    after: RetryRun,
)
    requires
        retry_step(before, settings, worth_retry, step, after),
    ensures
        step is Retry <==> settings.enabled && worth_retry && before.attempt
            < settings.max_retries,
        step is Fallback <==> settings.enabled && worth_retry && before.attempt
            >= settings.max_retries && settings.fallback_model is Some && !before.fallback_used,
        step is Retry ==> after.attempt == before.attempt + 1,
        !(step is Retry) ==> after.attempt == before.attempt,
        after.fallback_used <==> before.fallback_used || step is Fallback,
        step matches RetryStep::Retry { delay_ms } ==> delay_ms <= settings.max_delay_ms && (
        before.attempt == 0 && settings.base_delay_ms <= settings.max_delay_ms ==> delay_ms
            == settings.base_delay_ms),
        step matches RetryStep::Fallback { provider, model_id } ==> provider@
            == (settings.fallback_model->0).0@ && model_id@ == (settings.fallback_model->0).1@,
{
    law_backoff_grows_and_caps(after.attempt as nat, settings.base_delay_ms as nat, settings.max_delay_ms as nat);
    law_backoff_doubles(1, settings.base_delay_ms as nat, settings.max_delay_ms as nat);
}

/// What a failed run leads to: a delay, the search for the fallback model, or the error itself,
/// handed on as it is.
pub proof fn law_failures_are_retried_or_told(
    p: AgentSession,
    e: String,
    a: PromptAction,
    q: AgentSession,
)
    requires
        p.stage == PromptStage::Running,
        prompt_step(p, PromptEvent::Ran(Some(e)), a, q),
    ensures
        ({
            let worth = p.settings.enabled && retryable(e@);
            let left = p.run.attempt < p.settings.max_retries;
            let fallback = p.settings.fallback_model is Some && !p.run.fallback_used;
            &&& a is Wait <==> worth && left
            &&& a is LookUp <==> worth && !left && fallback
            &&& a is Fail <==> !worth || (!left && !fallback)
            &&& a matches PromptAction::Fail(m) ==> m@ == e@ && q.stage == PromptStage::Done
            &&& a matches PromptAction::LookUp { provider, model_id } ==> provider@
                == (p.settings.fallback_model->0).0@ && model_id@
                == (p.settings.fallback_model->0).1@ && q.run.fallback_used
            &&& a matches PromptAction::Wait { delay_ms } ==> q.run.attempt == p.run.attempt + 1
                && q.run.fallback_used == p.run.fallback_used && delay_ms
                <= p.settings.max_delay_ms && (p.run.attempt == 0 && p.settings.base_delay_ms
                <= p.settings.max_delay_ms ==> delay_ms == p.settings.base_delay_ms)
            &&& q.error@ == e@
        }),
{
    law_backoff_grows_and_caps(
        q.run.attempt as nat,
        p.settings.base_delay_ms as nat,
        p.settings.max_delay_ms as nat,
    );
    law_backoff_doubles(1, p.settings.base_delay_ms as nat, p.settings.max_delay_ms as nat);
}

/// A run without an error ends its prompt, and nothing else does so without an error.
pub proof fn law_only_success_finishes(
    p: AgentSession,
    event: PromptEvent,
    a: PromptAction,
    q: AgentSession,
)
    requires
        prompt_step(p, event, a, q),
    ensures
        a is Finish <==> p.stage == PromptStage::Running && event == PromptEvent::Ran(None),
        a is Finish || a is Fail ==> q.stage == PromptStage::Done,
        q.settings == p.settings,
{
}

/// Before a run is repeated, the session moves away from a leaf that is a failed message of
/// the assistant, to its parent, and from no other.
pub proof fn law_only_failed_leaves_are_left(
    p: AgentSession,
    entry: Option<SessionTreeEntry>,
    a: PromptAction,
    q: AgentSession,
)
    requires
        p.stage == PromptStage::ReadingEntry,
        prompt_step(p, PromptEvent::EntryRead(Ok(entry)), a, q),
    ensures
        a is Move <==> (entry matches Some(
            SessionTreeEntry::Message {
                message: AgentMessage::Llm(LlmMessage::Assistant(m)),
                ..
            },
        ) && m.failed),
        a matches PromptAction::Move(target) ==> (entry matches Some(
            SessionTreeEntry::Message { parent_id, .. },
        ) && target == parent_id),
        !(a is Move) ==> (if p.falls_back {
            a is SetModel
        } else if p.run.attempt == 0 {
            a is Prompt
        } else {
            a is Continue
        }),
{
}

/// A fallback model that is not known leaves the error as the end of the prompt; one that is
/// known gets the whole number of retries, and the prompt anew.
pub proof fn law_fallback_starts_over(
    p: AgentSession,
    found: bool,
    a: PromptAction,
    q: AgentSession,
)
    requires
        p.stage == PromptStage::LookingUp,
        prompt_step(p, PromptEvent::LookedUp(found), a, q),
    ensures
        !found ==> (a matches PromptAction::Fail(m) && m@ == p.error@),
        found ==> a is ReadLeaf && q.run.attempt == 0 && q.falls_back && q.run.fallback_used
            == p.run.fallback_used,
{
}

/// The model runs on the prompt for the first attempt of a model, and later from where the
/// session stands; what keeps the session from being rewound is told.
pub proof fn law_rewound_sessions_run(
    p: AgentSession,
    event: PromptEvent,
    a: PromptAction,
    q: AgentSession,
)
    requires
        prompt_step(p, event, a, q),
    ensures
        a is Prompt ==> q.run.attempt == 0 && q.stage == PromptStage::Running,
        a is Continue ==> q.run.attempt > 0 && q.stage == PromptStage::Running,
        p.stage == PromptStage::Waiting && event is Waited ==> a is ReadLeaf && !q.falls_back
            && q.run == p.run,
        p.stage == PromptStage::ReadingLeaf ==> (event matches PromptEvent::LeafRead(
            Ok(Some(id)),
        ) ==> (a matches PromptAction::ReadEntry(i) && i@ == id@)),
        p.stage == PromptStage::ReadingLeaf ==> (event matches PromptEvent::LeafRead(Err(e)) ==> (
        a matches PromptAction::Fail(m) && m@ == "session retry leaf lookup: "@ + e@)),
        p.stage == PromptStage::ReadingLeaf && (event matches PromptEvent::LeafRead(Ok(None))) ==> a
            is SetModel == p.falls_back && (a is SetModel || a is Prompt || a is Continue),
        p.stage == PromptStage::ReadingEntry ==> (event matches PromptEvent::EntryRead(Err(e)) ==> (
        a matches PromptAction::Fail(m) && m@ == "session retry leaf entry lookup: "@ + e@)),
        p.stage == PromptStage::Moving ==> (event matches PromptEvent::Moved(Err(e)) ==> (
        a matches PromptAction::Fail(m) && m@ == "session retry rewind: "@ + e@)),
        p.stage == PromptStage::Moving && (event matches PromptEvent::Moved(Ok(_))) ==> a
            is SetModel == p.falls_back && (a is SetModel || a is Prompt || a is Continue),
        p.stage == PromptStage::SettingModel ==> (event matches PromptEvent::ModelSet(Err(e)) ==> (
        a matches PromptAction::Fail(m) && m@ == "fallback set_model failed: "@ + e@)),
        p.stage == PromptStage::SettingModel && (event matches PromptEvent::ModelSet(Ok(_))) ==> a
            is Prompt || a is Continue,
        p.stage == PromptStage::Done ==> a is Ignore && q.stage == p.stage,
{
}

/// Failed messages at the end of a conversation are dropped, and what stands before them stays:
/// a conversation that ends in anything else is kept as it is.
pub proof fn law_rewind_keeps_what_was_said(
    messages: Seq<AgentMessage>,
    failed: Seq<AgentMessage>,
)
    requires
        messages.len() == 0 || !(messages.last() matches AgentMessage::Llm(
            LlmMessage::Assistant(a),
        ) && a.failed),
        forall|i: int|
            0 <= i < failed.len() ==> ((#[trigger] failed[i]) matches AgentMessage::Llm(
                LlmMessage::Assistant(a),
            ) && a.failed),
    ensures
        (messages + failed).take(
            kept_messages(messages + failed, (messages + failed).len() as int),
        ) == messages,
    decreases failed.len(),
{
    let all = messages + failed;
    lemma_kept_messages(all, all.len() as int);
    let kept = kept_messages(all, all.len() as int);
    if kept > messages.len() {
        assert(all[kept - 1] == failed[kept - 1 - messages.len()]);
    }
    if kept < messages.len() {
        assert(all[messages.len() - 1] == messages.last());
        assert(is_failed_assistant(all[messages.len() - 1]));
    }
    assert(all.take(kept) =~= messages);
}

/// An error is worth a retry exactly where the pattern of such errors is found in its message.
pub proof fn law_the_pattern_alone_decides(message: Seq<char>)
    requires
        regex_error(RETRYABLE_PATTERN@) is None,
    ensures
        retryable(message) <==> regex_matches(RETRYABLE_PATTERN@, message),
{
}

/// The next wait for the same prompt is twice as long as the one before it, up to the maximum.
pub proof fn law_waits_grow_from_run_to_run(
    p: AgentSession,
    e: String,
    first: PromptAction,
    q: AgentSession,
    p2: AgentSession,
    e2: String,
    second: PromptAction,
    q2: AgentSession,
)
    requires
        p.stage == PromptStage::Running,
        prompt_step(p, PromptEvent::Ran(Some(e)), first, q),
        p2.stage == PromptStage::Running,
        prompt_step(p2, PromptEvent::Ran(Some(e2)), second, q2),
        p2.settings == p.settings,
        p2.run.attempt == q.run.attempt,
        first is Wait,
        second is Wait,
    ensures
        ({
            let max = p.settings.max_delay_ms;
            let d = first->delay_ms;
            &&& p.run.attempt < 10 ==> second->delay_ms == if 2 * d <= max {
                2 * d
            } else {
                max as int
            }
            &&& p.run.attempt >= 10 ==> second->delay_ms == d
        }),
{
    let base = p.settings.base_delay_ms as nat;
    let max = p.settings.max_delay_ms as nat;
    law_backoff_doubles(q.run.attempt as nat, base, max);
    law_backoff_grows_and_caps(q.run.attempt as nat, base, max);
    law_backoff_grows_and_caps(q2.run.attempt as nat, base, max);
}

} // verus!
