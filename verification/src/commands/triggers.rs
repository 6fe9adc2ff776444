//! What the automation commands (`/triggers`, `/cron`, `/inbox`) print: rules, sources,
//! running actions, scheduled jobs and the audit trail.

use crate::commands::{add_lines, preview, preview_text};
use crate::json::{bool_member, member, string_member, uint_member, Json, JsonView};
use crate::session_tree::SessionTreeEntry;
use crate::text::{
    char_count, contains, contains_text, decimal, decimal_size, digits, join, joined,
    lemma_texts_empty, lemma_texts_push, opt_text, owned, take_chars, texts,
};
use vstd::prelude::*;

verus! {

broadcast use {lemma_texts_push, lemma_texts_empty};

/// A rule that watches a condition.
#[derive(Debug)]
pub struct DynamicTriggerRule {
    pub id: String,
    pub enabled: bool,
    pub fire_once: bool,
    pub promote_to_chat: bool,
    /// When the rule fired last, as text.
    pub fired_at: Option<String>,
    pub condition: String,
    pub action: String,
}

/// The state of a trigger source.
#[allow(inconsistent_fields)]
#[derive(Debug)]
pub enum HookState {
    Connected,
    Reconnecting,
    Disconnected { reason: String },
    Disabled,
    AuthFailed { reason: String },
}

/// What a trigger source reports of itself.
#[derive(Debug)]
pub struct NotificationHookStatus {
    pub state: HookState,
    pub subscription_labels: Vec<String>,
    pub queued_count: u64,
    pub dropped_count: u64,
    pub deduped_count: u64,
    /// When the last event came, as text.
    pub last_event_at: Option<String>,
    pub last_error: Option<String>,
    pub requires_attention: Option<String>,
}

/// An action that is under way.
#[derive(Debug)]
pub struct RunningTriggerState {
    pub trace_id: String,
    pub source_label: String,
    pub event_label: String,
    /// When the action began, as text.
    pub started_at: String,
    pub prompt_preview: String,
}

/// The counters of the trigger runtime.
#[derive(Clone, Copy, Debug)]
pub struct TriggerRuntime {
    pub accepted_total: u64,
    pub deduped_total: u64,
    pub cycle_suppressed_total: u64,
    pub active_traces: usize,
    pub dedup_entries: usize,
}

/// What the trigger executor reports.
#[derive(Debug)]
pub struct NotificationStatusSnapshot {
    pub runtime: TriggerRuntime,
    pub hooks: Vec<NotificationHookStatus>,
    pub running: Vec<RunningTriggerState>,
}

/// A job that runs on a schedule. Its action has secrets taken out already.
#[derive(Debug)]
pub struct CronJob {
    pub id: String,
    pub enabled: bool,
    pub schedule: String,
    pub stateful: bool,
    pub running_trace_id: Option<String>,
    pub action: String,
    pub skipped_overlap_count: u64,
    pub last_error: Option<String>,
    /// When the job ran last, as text.
    pub last_fired_at: Option<String>,
}

/// The first `max_chars` characters of a text, with an ellipsis where that leaves some out.
pub open spec fn cron_preview(text: Seq<char>, max_chars: int) -> Seq<char> {
    if text.len() > max_chars {
        text.take(max_chars).push('…')
    } else {
        text
    }
}

/// The first `max_chars` characters of a text, with an ellipsis where that leaves some out.
pub fn preview_cron_text(text: &str, max_chars: usize) -> (r: String)
    ensures
        r@ == cron_preview(text@, max_chars as int),
{
    let mut head = take_chars(text, max_chars);
    if char_count(text) > max_chars {
        head.push('…');
    }
    head
}

pub open spec fn enabled_text(enabled: bool) -> Seq<char> {
    if enabled {
        "enabled"@
    } else {
        "disabled"@
    }
}

fn enabled_word(enabled: bool) -> (r: &'static str)
    ensures
        r@ == enabled_text(enabled),
{
    if enabled {
        "enabled"
    } else {
        "disabled"
    }
}

/// A prefix and a text, or nothing.
pub open spec fn prefixed(prefix: Seq<char>, o: Option<String>) -> Seq<char> {
    match o {
        Some(s) => prefix + s@,
        None => Seq::empty(),
    }
}

fn with_prefix(prefix: &str, o: &Option<String>) -> (r: String)
    ensures
        r@ == prefixed(prefix@, *o),
{
    match o {
        Some(s) => {
            let mut r = owned(prefix);
            r.push_str(s.as_str());
            r
        },
        None => String::new(),
    }
}

/// The lines of one job.
pub open spec fn cron_job_lines(job: CronJob) -> Seq<Seq<char>> {
    let first = seq![
        "  "@ + job.id@ + "  "@ + enabled_text(job.enabled) + "  "@ + job.schedule@ + (
        if job.stateful {
            "  [stateful]"@
        } else {
            ""@
        }) + prefixed(", running "@, job.running_trace_id),
        "    action: "@ + cron_preview(job.action@, 120),
    ];
    let second = if job.skipped_overlap_count > 0 {
        first.push("    overlap skips: "@ + digits(job.skipped_overlap_count as nat))
    } else {
        first
    };
    match (job.last_error, job.last_fired_at) {
        (Some(e), _) => second.push("    last: "@ + e@),
        (None, Some(at)) => second.push("    last fired: "@ + at@),
        (None, None) => second,
    }
}

/// The lines of the first `n` jobs.
pub open spec fn cron_jobs_lines(jobs: Seq<CronJob>, n: int) -> Seq<Seq<char>>
    decreases n,
{
    if n <= 0 || n > jobs.len() {
        seq!["Cron jobs (session, "@ + digits(jobs.len()) + "):"@]
    } else {
        cron_jobs_lines(jobs, n - 1) + cron_job_lines(jobs[n - 1])
    }
}

fn render_cron_job(job: &CronJob) -> (lines: Vec<String>)
    ensures
        texts(lines@) == cron_job_lines(*job),
{
    let mut lines: Vec<String> = Vec::new();
    let mut first = owned("  ");
    first.push_str(job.id.as_str());
    first.push_str("  ");
    first.push_str(enabled_word(job.enabled));
    first.push_str("  ");
    first.push_str(job.schedule.as_str());
    first.push_str(
        if job.stateful {
            "  [stateful]"
        } else {
            ""
        },
    );
    first.push_str(with_prefix(", running ", &job.running_trace_id).as_str());
    lines.push(first);
    let mut second = owned("    action: ");
    second.push_str(preview_cron_text(job.action.as_str(), 120).as_str());
    lines.push(second);
    if job.skipped_overlap_count > 0 {
        let mut line = owned("    overlap skips: ");
        line.push_str(decimal(job.skipped_overlap_count).as_str());
        lines.push(line);
    }
    if let Some(e) = &job.last_error {
        let mut line = owned("    last: ");
        line.push_str(e.as_str());
        lines.push(line);
    } else if let Some(at) = &job.last_fired_at {
        let mut line = owned("    last fired: ");
        line.push_str(at.as_str());
        lines.push(line);
    }
    lines
}

/// The list of the scheduled jobs.
pub fn render_cron_jobs(jobs: &Vec<CronJob>) -> (lines: Vec<String>)
    ensures
        texts(lines@) == (if jobs@.len() == 0 {
            seq!["Cron jobs (session): none"@]
        } else {
            cron_jobs_lines(jobs@, jobs@.len() as int)
        }),
{
    let mut lines: Vec<String> = Vec::new();
    if jobs.len() == 0 {
        lines.push(owned("Cron jobs (session): none"));
        return lines;
    }
    let mut head = owned("Cron jobs (session, ");
    head.push_str(decimal_size(jobs.len()).as_str());
    head.push_str("):");
    lines.push(head);
    let mut i: usize = 0;
    while i < jobs.len()
        invariant
            i <= jobs@.len(),
            texts(lines@) == cron_jobs_lines(jobs@, i as int),
        decreases jobs@.len() - i,
    {
        add_lines(&mut lines, &render_cron_job(&jobs[i]));
        i += 1;
    }
    lines
}

/// The line of one rule.
pub open spec fn rule_line(rule: DynamicTriggerRule) -> Seq<char> {
    "  - "@ + rule.id@ + " ["@ + enabled_text(rule.enabled) + ", "@ + (if rule.fire_once {
        "fire_once"@
    } else {
        "repeat"@
    }) + ", "@ + (if rule.promote_to_chat {
        "promote_to_chat"@
    } else {
        "audit_only"@
    }) + prefixed(", fired_at="@, rule.fired_at) + "] when "@ + preview(rule.condition@, 80)
        + " -> "@ + preview(rule.action@, 80)
}

fn render_rule(rule: &DynamicTriggerRule) -> (r: String)
    ensures
        r@ == rule_line(*rule),
{
    let mut r = owned("  - ");
    r.push_str(rule.id.as_str());
    r.push_str(" [");
    r.push_str(enabled_word(rule.enabled));
    r.push_str(", ");
    r.push_str(
        if rule.fire_once {
            "fire_once"
        } else {
            "repeat"
        },
    );
    r.push_str(", ");
    r.push_str(
        if rule.promote_to_chat {
            "promote_to_chat"
        } else {
            "audit_only"
        },
    );
    r.push_str(with_prefix(", fired_at=", &rule.fired_at).as_str());
    r.push_str("] when ");
    r.push_str(preview_text(rule.condition.as_str(), 80).as_str());
    r.push_str(" -> ");
    r.push_str(preview_text(rule.action.as_str(), 80).as_str());
    r
}

/// The lines of the first `n` rules.
pub open spec fn rule_lines(rules: Seq<DynamicTriggerRule>, n: int) -> Seq<Seq<char>>
    decreases n,
{
    if n <= 0 || n > rules.len() {
        Seq::empty()
    } else {
        rule_lines(rules, n - 1).push(rule_line(rules[n - 1]))
    }
}

/// What follows the heading of the list of rules: at most `limit` rules, and how many more
/// there are.
pub open spec fn rules_tail(rules: Seq<DynamicTriggerRule>, limit: int) -> Seq<Seq<char>> {
    let shown = if rules.len() < limit {
        rules.len() as int
    } else {
        limit
    };
    if shown < rules.len() {
        rule_lines(rules, shown).push(
            "  ... "@ + digits((rules.len() - shown) as nat) + " more; run /triggers rules"@,
        )
    } else {
        rule_lines(rules, shown)
    }
}

fn render_rules_tail(rules: &Vec<DynamicTriggerRule>, limit: usize) -> (lines: Vec<String>)
    ensures
        texts(lines@) == rules_tail(rules@, limit as int),
{
    let total: usize = rules.len();
    let shown: usize = if total < limit {
        total
    } else {
        limit
    };
    let mut lines: Vec<String> = Vec::new();
    let mut i: usize = 0;
    while i < shown
        invariant
            i <= shown <= rules@.len(),
            texts(lines@) == rule_lines(rules@, i as int),
        decreases shown - i,
    {
        lines.push(render_rule(&rules[i]));
        i += 1;
    }
    if shown < total {
        let mut more = owned("  ... ");
        more.push_str(decimal_size(total - shown).as_str());
        more.push_str(" more; run /triggers rules");
        lines.push(more);
    }
    lines
}

/// The list of the rules, at most `limit` of them.
pub fn render_dynamic_trigger_rules(rules: &Vec<DynamicTriggerRule>, limit: usize) -> (lines: Vec<
    String,
>)
    ensures
        texts(lines@) == (if rules@.len() == 0 {
            seq!["Dynamic trigger rules: none"@]
        } else {
            seq!["Dynamic trigger rules ("@ + digits(rules@.len()) + "):"@] + rules_tail(
                rules@,
                limit as int,
            )
        }),
{
    let mut lines: Vec<String> = Vec::new();
    if rules.len() == 0 {
        lines.push(owned("Dynamic trigger rules: none"));
        return lines;
    }
    let mut head = owned("Dynamic trigger rules (");
    head.push_str(decimal_size(rules.len()).as_str());
    head.push_str("):");
    lines.push(head);
    add_lines(&mut lines, &render_rules_tail(rules, limit));
    lines
}

pub open spec fn hook_state_text(state: HookState) -> Seq<char> {
    match state {
        HookState::Connected => "connected"@,
        HookState::Reconnecting => "reconnecting"@,
        HookState::Disconnected { reason } => "disconnected ("@ + preview(reason@, 80) + ")"@,
        HookState::Disabled => "disabled"@,
        HookState::AuthFailed { reason } => "auth_failed ("@ + preview(reason@, 80) + ")"@,
    }
}

fn render_hook_state(state: &HookState) -> (r: String)
    ensures
        r@ == hook_state_text(*state),
{
    match state {
        HookState::Connected => owned("connected"),
        HookState::Reconnecting => owned("reconnecting"),
        HookState::Disconnected { reason } => {
            let mut r = owned("disconnected (");
            r.push_str(preview_text(reason.as_str(), 80).as_str());
            r.push_str(")");
            r
        },
        HookState::Disabled => owned("disabled"),
        HookState::AuthFailed { reason } => {
            let mut r = owned("auth_failed (");
            r.push_str(preview_text(reason.as_str(), 80).as_str());
            r.push_str(")");
            r
        },
    }
}

pub open spec fn attention_text(hook: NotificationHookStatus) -> Seq<char> {
    match hook.requires_attention {
        Some(m) => "  attention: "@ + preview(m@, 120),
        None => Seq::empty(),
    }
}

fn render_requires_attention(hook: &NotificationHookStatus) -> (r: String)
    ensures
        r@ == attention_text(*hook),
{
    match &hook.requires_attention {
        Some(m) => {
            let mut r = owned("  attention: ");
            r.push_str(preview_text(m.as_str(), 120).as_str());
            r
        },
        None => String::new(),
    }
}

/// The lines of the source with the number `n`.
pub open spec fn source_lines(hook: NotificationHookStatus, n: nat) -> Seq<Seq<char>> {
    let both = seq![
        "  - source #"@ + digits(n) + ": "@ + hook_state_text(hook.state) + " queued="@ + digits(
            hook.queued_count as nat,
        ) + " dropped="@ + digits(hook.dropped_count as nat) + " deduped="@ + digits(
            hook.deduped_count as nat,
        ) + " last_event="@ + (match hook.last_event_at {
            Some(at) => at@,
            None => "never"@,
        }) + attention_text(hook),
        "      "@ + (if hook.subscription_labels@.len() == 0 {
            "subscriptions: none"@
        } else {
            "subscriptions: "@ + joined(texts(hook.subscription_labels@), ", "@)
        }),
    ];
    match hook.last_error {
        Some(e) => both.push("      last error: "@ + preview(e@, 160)),
        None => both,
    }
}

fn render_source(hook: &NotificationHookStatus, n: usize) -> (lines: Vec<String>)
    ensures
        texts(lines@) == source_lines(*hook, n as nat),
{
    let mut lines: Vec<String> = Vec::new();
    let mut first = owned("  - source #");
    first.push_str(decimal_size(n).as_str());
    first.push_str(": ");
    first.push_str(render_hook_state(&hook.state).as_str());
    first.push_str(" queued=");
    first.push_str(decimal(hook.queued_count).as_str());
    first.push_str(" dropped=");
    first.push_str(decimal(hook.dropped_count).as_str());
    first.push_str(" deduped=");
    first.push_str(decimal(hook.deduped_count).as_str());
    first.push_str(" last_event=");
    match &hook.last_event_at {
        Some(at) => first.push_str(at.as_str()),
        None => first.push_str("never"),
    }
    first.push_str(render_requires_attention(hook).as_str());
    lines.push(first);
    let mut labels = owned("      ");
    if hook.subscription_labels.len() == 0 {
        labels.push_str("subscriptions: none");
    } else {
        let mut listed = owned("subscriptions: ");
        listed.push_str(join(&hook.subscription_labels, ", ").as_str());
        labels.push_str(listed.as_str());
    }
    lines.push(labels);
    if let Some(e) = &hook.last_error {
        let mut line = owned("      last error: ");
        line.push_str(preview_text(e.as_str(), 160).as_str());
        lines.push(line);
    }
    lines
}

/// The lines of the first `n` sources.
pub open spec fn sources_lines(hooks: Seq<NotificationHookStatus>, n: int) -> Seq<Seq<char>>
    decreases n,
{
    if n <= 0 || n > hooks.len() {
        seq!["Trigger sources ("@ + digits(hooks.len()) + "):"@]
    } else {
        sources_lines(hooks, n - 1) + source_lines(hooks[n - 1], n as nat)
    }
}

/// The list of the trigger sources.
pub fn render_trigger_sources(hooks: &Vec<NotificationHookStatus>) -> (lines: Vec<String>)
    ensures
        texts(lines@) == (if hooks@.len() == 0 {
            seq!["(no trigger sources registered)"@]
        } else {
            sources_lines(hooks@, hooks@.len() as int)
        }),
{
    let mut lines: Vec<String> = Vec::new();
    if hooks.len() == 0 {
        lines.push(owned("(no trigger sources registered)"));
        return lines;
    }
    let mut head = owned("Trigger sources (");
    head.push_str(decimal_size(hooks.len()).as_str());
    head.push_str("):");
    lines.push(head);
    let mut i: usize = 0;
    while i < hooks.len()
        invariant
            i <= hooks@.len(),
            texts(lines@) == sources_lines(hooks@, i as int),
        decreases hooks@.len() - i,
    {
        add_lines(&mut lines, &render_source(&hooks[i], i + 1));
        i += 1;
    }
    lines
}

/// The lines of the first `n` running actions.
pub open spec fn running_lines(running: Seq<RunningTriggerState>, n: int) -> Seq<Seq<char>>
    decreases n,
{
    if n <= 0 || n > running.len() {
        seq!["Running triggers ("@ + digits(running.len()) + "):"@]
    } else {
        let t = running[n - 1];
        running_lines(running, n - 1).push(
            "  - "@ + t.trace_id@ + "  "@ + t.source_label@ + " / "@ + t.event_label@ + "  since "@
                + t.started_at@,
        ).push("      prompt: "@ + preview(t.prompt_preview@, 120))
    }
}

/// The list of the actions that are under way.
pub fn render_running_triggers(running: &Vec<RunningTriggerState>) -> (lines: Vec<String>)
    ensures
        texts(lines@) == (if running@.len() == 0 {
            seq!["(no running triggers)"@]
        } else {
            running_lines(running@, running@.len() as int)
        }),
{
    let mut lines: Vec<String> = Vec::new();
    if running.len() == 0 {
        lines.push(owned("(no running triggers)"));
        return lines;
    }
    let mut head = owned("Running triggers (");
    head.push_str(decimal_size(running.len()).as_str());
    head.push_str("):");
    lines.push(head);
    let mut i: usize = 0;
    while i < running.len()
        invariant
            i <= running@.len(),
            texts(lines@) == running_lines(running@, i as int),
        decreases running@.len() - i,
    {
        let t = &running[i];
        let mut first = owned("  - ");
        first.push_str(t.trace_id.as_str());
        first.push_str("  ");
        first.push_str(t.source_label.as_str());
        first.push_str(" / ");
        first.push_str(t.event_label.as_str());
        first.push_str("  since ");
        first.push_str(t.started_at.as_str());
        lines.push(first);
        let mut second = owned("      prompt: ");
        second.push_str(preview_text(t.prompt_preview.as_str(), 120).as_str());
        lines.push(second);
        i += 1;
    }
    lines
}

// The status.

/// How many rules are enabled, fire once and are promoted to the chat.
pub open spec fn rule_counts(rules: Seq<DynamicTriggerRule>, n: int) -> (nat, nat, nat)
    decreases n,
{
    if n <= 0 || n > rules.len() {
        (0, 0, 0)
    } else {
        let (enabled, once, promoted) = rule_counts(rules, n - 1);
        let rule = rules[n - 1];
        (
            if rule.enabled {
                enabled + 1
            } else {
                enabled
            },
            if rule.fire_once {
                once + 1
            } else {
                once
            },
            if rule.promote_to_chat {
                promoted + 1
            } else {
                promoted
            },
        )
    }
}

/// Whether a source is the one that polls the rules.
pub open spec fn is_checker(hook: NotificationHookStatus) -> bool {
    exists|i: int|
        0 <= i < hook.subscription_labels@.len() && contains_text(
            (#[trigger] hook.subscription_labels@[i])@,
            "dynamic trigger periodic check"@,
        )
}

fn polls_rules(hook: &NotificationHookStatus) -> (r: bool)
    ensures
        r == is_checker(*hook),
{
    let mut i: usize = 0;
    while i < hook.subscription_labels.len()
        invariant
            i <= hook.subscription_labels@.len(),
            forall|j: int|
                0 <= j < i ==> !contains_text(
                    (#[trigger] hook.subscription_labels@[j])@,
                    "dynamic trigger periodic check"@,
                ),
        decreases hook.subscription_labels@.len() - i,
    {
        if contains(hook.subscription_labels[i].as_str(), "dynamic trigger periodic check") {
            assert(contains_text(
                hook.subscription_labels@[i as int]@,
                "dynamic trigger periodic check"@,
            ));
            return true;
        }
        i += 1;
    }
    false
}

/// How many sources poll the rules, are connected and want attention.
pub open spec fn source_counts(hooks: Seq<NotificationHookStatus>, n: int) -> (nat, nat, nat)
    decreases n,
{
    if n <= 0 || n > hooks.len() {
        (0, 0, 0)
    } else {
        let (checkers, connected, attention) = source_counts(hooks, n - 1);
        let hook = hooks[n - 1];
        (
            if is_checker(hook) {
                checkers + 1
            } else {
                checkers
            },
            if hook.state is Connected {
                connected + 1
            } else {
                connected
            },
            if hook.requires_attention is Some {
                attention + 1
            } else {
                attention
            },
        )
    }
}

fn count_rules(rules: &Vec<DynamicTriggerRule>) -> (r: (usize, usize, usize))
    ensures
        (r.0 as nat, r.1 as nat, r.2 as nat) == rule_counts(rules@, rules@.len() as int),
        r.0 <= rules@.len(),
        r.1 <= rules@.len(),
{
    let mut enabled: usize = 0;
    let mut once: usize = 0;
    let mut promoted: usize = 0;
    let mut i: usize = 0;
    while i < rules.len()
        invariant
            i <= rules@.len(),
            enabled <= i,
            once <= i,
            promoted <= i,
            (enabled as nat, once as nat, promoted as nat) == rule_counts(rules@, i as int),
        decreases rules@.len() - i,
    {
        if rules[i].enabled {
            enabled += 1;
        }
        if rules[i].fire_once {
            once += 1;
        }
        if rules[i].promote_to_chat {
            promoted += 1;
        }
        i += 1;
    }
    (enabled, once, promoted)
}

fn count_sources(hooks: &Vec<NotificationHookStatus>) -> (r: (usize, usize, usize))
    ensures
        (r.0 as nat, r.1 as nat, r.2 as nat) == source_counts(hooks@, hooks@.len() as int),
        r.0 <= hooks@.len(),
{
    let mut checkers: usize = 0;
    let mut connected: usize = 0;
    let mut attention: usize = 0;
    let mut i: usize = 0;
    while i < hooks.len()
        invariant
            i <= hooks@.len(),
            checkers <= i,
            connected <= i,
            attention <= i,
            (checkers as nat, connected as nat, attention as nat) == source_counts(
                hooks@,
                i as int,
            ),
        decreases hooks@.len() - i,
    {
        if polls_rules(&hooks[i]) {
            checkers += 1;
        }
        if let HookState::Connected = hooks[i].state {
            connected += 1;
        }
        if hooks[i].requires_attention.is_some() {
            attention += 1;
        }
        i += 1;
    }
    (checkers, connected, attention)
}

pub const STATUS_OUTPUT_LINE: &'static str =
    "  output: default is TUI + audit only; rules marked promote_to_chat also enter the main chat context";

pub const STATUS_COMMANDS_LINE: &'static str =
    "  commands: /triggers rules | /triggers sources | /triggers disable <id> | /triggers enable <id> | /triggers remove <id> | /triggers audit";

/// The lines of the status of the trigger runtime.
pub open spec fn status_lines(
    snapshot: NotificationStatusSnapshot,
    rules: Seq<DynamicTriggerRule>,
    poll_interval_secs: nat,
    storage: Option<String>,
) -> Seq<Seq<char>> {
    let (enabled, once, promoted) = rule_counts(rules, rules.len() as int);
    let hooks = snapshot.hooks@;
    let (checkers, connected, attention) = source_counts(hooks, hooks.len() as int);
    let runtime = snapshot.runtime;
    (seq![
        "Trigger status:"@,
        "  dynamic rules: "@ + digits(rules.len()) + " total, "@ + digits(enabled) + " enabled, "@
            + digits((rules.len() - enabled) as nat) + " disabled ("@ + digits(once)
            + " fire_once, "@ + digits((rules.len() - once) as nat) + " repeat, "@ + digits(
            promoted,
        ) + " promote_to_chat)"@,
        "  local dynamic checker: "@ + digits(checkers) + " registered, polls every "@ + digits(
            poll_interval_secs,
        ) + "s while enabled rules exist"@,
        "  push trigger sources: "@ + digits((hooks.len() - checkers) as nat)
            + " configured source(s) feed server-pushed events into the same trigger runtime"@,
        "  storage: "@ + (match storage {
            Some(path) => path@,
            None => "memory"@,
        }),
        STATUS_OUTPUT_LINE@,
        "  engine: accepted="@ + digits(runtime.accepted_total as nat) + " deduped="@ + digits(
            runtime.deduped_total as nat,
        ) + " cycle_suppressed="@ + digits(runtime.cycle_suppressed_total as nat)
            + " recent_traces="@ + digits(runtime.active_traces as nat) + " dedup_entries="@
            + digits(runtime.dedup_entries as nat) + " running="@ + digits(
            snapshot.running@.len(),
        ),
        "  sources: "@ + digits(hooks.len()) + " total, "@ + digits(connected) + " connected, "@
            + digits(attention) + " require attention"@,
    ] + (if rules.len() == 0 {
        Seq::empty()
    } else {
        rules_tail(rules, 3)
    })).push(STATUS_COMMANDS_LINE@)
}

/// The status of the trigger runtime: the rules, the sources, where rules are stored, and
/// the counters.
pub fn render_triggers_status(
    snapshot: &NotificationStatusSnapshot,
    rules: &Vec<DynamicTriggerRule>,
    poll_interval_secs: u64,
    storage: &Option<String>,
) -> (lines: Vec<String>)
    ensures
        texts(lines@) == status_lines(*snapshot, rules@, poll_interval_secs as nat, *storage),
{
    let total: usize = rules.len();
    let (enabled, once, promoted) = count_rules(rules);
    let sources: usize = snapshot.hooks.len();
    let (checkers, connected, attention) = count_sources(&snapshot.hooks);
    let mut lines: Vec<String> = Vec::new();
    lines.push(owned("Trigger status:"));
    let mut line = owned("  dynamic rules: ");
    line.push_str(decimal_size(total).as_str());
    line.push_str(" total, ");
    line.push_str(decimal_size(enabled).as_str());
    line.push_str(" enabled, ");
    line.push_str(decimal_size(total - enabled).as_str());
    line.push_str(" disabled (");
    line.push_str(decimal_size(once).as_str());
    line.push_str(" fire_once, ");
    line.push_str(decimal_size(total - once).as_str());
    line.push_str(" repeat, ");
    line.push_str(decimal_size(promoted).as_str());
    line.push_str(" promote_to_chat)");
    lines.push(line);
    let mut line = owned("  local dynamic checker: ");
    line.push_str(decimal_size(checkers).as_str());
    line.push_str(" registered, polls every ");
    line.push_str(decimal(poll_interval_secs).as_str());
    line.push_str("s while enabled rules exist");
    lines.push(line);
    let mut line = owned("  push trigger sources: ");
    line.push_str(decimal_size(sources - checkers).as_str());
    line.push_str(
        " configured source(s) feed server-pushed events into the same trigger runtime",
    );
    lines.push(line);
    let mut line = owned("  storage: ");
    match storage {
        Some(path) => line.push_str(path.as_str()),
        None => line.push_str("memory"),
    }
    lines.push(line);
    lines.push(owned(STATUS_OUTPUT_LINE));
    let mut line = owned("  engine: accepted=");
    line.push_str(decimal(snapshot.runtime.accepted_total).as_str());
    line.push_str(" deduped=");
    line.push_str(decimal(snapshot.runtime.deduped_total).as_str());
    line.push_str(" cycle_suppressed=");
    line.push_str(decimal(snapshot.runtime.cycle_suppressed_total).as_str());
    line.push_str(" recent_traces=");
    line.push_str(decimal_size(snapshot.runtime.active_traces).as_str());
    line.push_str(" dedup_entries=");
    line.push_str(decimal_size(snapshot.runtime.dedup_entries).as_str());
    line.push_str(" running=");
    line.push_str(decimal_size(snapshot.running.len()).as_str());
    lines.push(line);
    let mut line = owned("  sources: ");
    line.push_str(decimal_size(sources).as_str());
    line.push_str(" total, ");
    line.push_str(decimal_size(connected).as_str());
    line.push_str(" connected, ");
    line.push_str(decimal_size(attention).as_str());
    line.push_str(" require attention");
    lines.push(line);
    let ghost head = texts(lines@);
    if total > 0 {
        add_lines(&mut lines, &render_rules_tail(rules, 3));
    } else {
        assert(head + Seq::<Seq<char>>::empty() =~= head);
    }
    lines.push(owned(STATUS_COMMANDS_LINE));
    lines
}

// The audit trail.

/// One entry of the audit trail.
#[derive(Debug)]
pub struct TriggerAuditRow {
    pub custom_type: String,
    pub timestamp: String,
    pub trace_id: Option<String>,
    pub state: String,
    pub source_label: Option<String>,
    pub event_label: Option<String>,
    pub summary: Option<String>,
    pub details: Vec<String>,
}

/// The content of a `TriggerAuditRow`.
pub struct AuditRowView {
    pub custom_type: Seq<char>,
    pub timestamp: Seq<char>,
    pub trace_id: Option<Seq<char>>,
    pub state: Seq<char>,
    pub source_label: Option<Seq<char>>,
    pub event_label: Option<Seq<char>>,
    pub summary: Option<Seq<char>>,
    pub details: Seq<Seq<char>>,
}

impl View for TriggerAuditRow {
    type V = AuditRowView;

    open spec fn view(&self) -> AuditRowView {
        AuditRowView {
            custom_type: self.custom_type@,
            timestamp: self.timestamp@,
            trace_id: opt_text(self.trace_id),
            state: self.state@,
            source_label: opt_text(self.source_label),
            event_label: opt_text(self.event_label),
            summary: opt_text(self.summary),
            details: texts(self.details@),
        }
    }
}

pub open spec fn row_views(v: Seq<TriggerAuditRow>) -> Seq<AuditRowView> {
    Seq::new(v.len(), |i: int| v[i]@)
}

/// A list with a label and the preview of a text at its end, where there is a text.
pub open spec fn noted(
    v: Seq<Seq<char>>,
    label: Seq<char>,
    text: Option<Seq<char>>,
    max_chars: int,
) -> Seq<Seq<char>> {
    match text {
        Some(t) => v.push(label + preview(t, max_chars)),
        None => v,
    }
}

/// A list with a label and a number at its end, where there is a number.
pub open spec fn counted(v: Seq<Seq<char>>, label: Seq<char>, n: Option<nat>) -> Seq<Seq<char>> {
    match n {
        Some(n) => v.push(label + digits(n)),
        None => v,
    }
}

fn note(v: &mut Vec<String>, label: &str, data: &Json, name: &str, max_chars: usize)
    ensures
        texts(final(v)@) == noted(
            texts(old(v)@),
            label@,
            string_member(data@, name@),
            max_chars as int,
        ),
{
    if let Some(t) = data.text_member(name) {
        let mut line = owned(label);
        line.push_str(preview_text(t.as_str(), max_chars).as_str());
        v.push(line);
    }
}

fn count(v: &mut Vec<String>, label: &str, data: &Json, name: &str)
    ensures
        texts(final(v)@) == counted(texts(old(v)@), label@, uint_member(data@, name@)),
{
    if let Some(n) = data.uint_field(name) {
        let mut line = owned(label);
        line.push_str(decimal(n).as_str());
        v.push(line);
    }
}

/// What the audit shows of a decision.
pub open spec fn decision_details(data: JsonView) -> Seq<Seq<char>> {
    match member(data, "evaluator_decision"@) {
        None => Seq::empty(),
        Some(decision) => match string_member(decision, "outcome"@) {
            None => seq!["decision: present"@],
            Some(outcome) => {
                let head = seq!["decision: "@ + outcome];
                if outcome == "accept"@ {
                    noted(
                        noted(
                            head,
                            "permission: "@,
                            string_member(decision, "permission"@),
                            80,
                        ),
                        "reason: "@,
                        string_member(decision, "reason"@),
                        160,
                    )
                } else if outcome == "deduped"@ {
                    noted(
                        noted(
                            head,
                            "previous_trace_id: "@,
                            string_member(decision, "previous_trace_id"@),
                            80,
                        ),
                        "replacement_policy: "@,
                        string_member(decision, "replacement_policy"@),
                        80,
                    )
                } else if outcome == "cycle_suppressed"@ {
                    counted(head, "hop_count: "@, uint_member(decision, "hop_count"@))
                } else {
                    head
                }
            },
        },
    }
}

/// What the audit shows of a decision.
pub fn trigger_decision_details(data: &Json) -> (r: Vec<String>)
    ensures
        texts(r@) == decision_details(data@),
{
    let mut fields: Vec<String> = Vec::new();
    let decision = match data.get("evaluator_decision") {
        Some(decision) => decision,
        None => {
            return fields;
        },
    };
    let outcome = match decision.text_member("outcome") {
        Some(outcome) => outcome,
        None => {
            fields.push(owned("decision: present"));
            return fields;
        },
    };
    let mut head = owned("decision: ");
    head.push_str(outcome.as_str());
    fields.push(head);
    if outcome.as_str().eq("accept") {
        note(&mut fields, "permission: ", decision, "permission", 80);
        note(&mut fields, "reason: ", decision, "reason", 160);
    } else if outcome.as_str().eq("deduped") {
        note(&mut fields, "previous_trace_id: ", decision, "previous_trace_id", 80);
        note(&mut fields, "replacement_policy: ", decision, "replacement_policy", 80);
    } else if outcome.as_str().eq("cycle_suppressed") {
        count(&mut fields, "hop_count: ", decision, "hop_count");
    }
    fields
}

/// What the audit shows of a result.
pub open spec fn result_details(data: JsonView) -> Seq<Seq<char>> {
    counted(
        noted(Seq::empty(), "branch_id: "@, string_member(data, "branch_id"@), 80),
        "message_count: "@,
        uint_member(data, "message_count"@),
    )
}

fn trigger_result_details(data: &Json) -> (r: Vec<String>)
    ensures
        texts(r@) == result_details(data@),
{
    let mut fields: Vec<String> = Vec::new();
    note(&mut fields, "branch_id: ", data, "branch_id", 80);
    count(&mut fields, "message_count: ", data, "message_count");
    fields
}

/// What the audit shows of a promotion to the chat.
pub open spec fn promotion_details(data: JsonView) -> Seq<Seq<char>> {
    noted(
        noted(Seq::empty(), "promote_kind: "@, string_member(data, "promote_kind"@), 80),
        "inserted_entry_id: "@,
        string_member(data, "inserted_entry_id"@),
        80,
    )
}

fn trigger_promotion_details(data: &Json) -> (r: Vec<String>)
    ensures
        texts(r@) == promotion_details(data@),
{
    let mut fields: Vec<String> = Vec::new();
    note(&mut fields, "promote_kind: ", data, "promote_kind", 80);
    note(&mut fields, "inserted_entry_id: ", data, "inserted_entry_id", 80);
    fields
}

pub open spec fn text_or(o: Option<Seq<char>>, default: Seq<char>) -> Seq<char> {
    match o {
        Some(s) => s,
        None => default,
    }
}

fn member_or(data: &Json, name: &str, default: &str) -> (r: String)
    ensures
        r@ == text_or(string_member(data@, name@), default@),
{
    match data.text_member(name) {
        Some(s) => s,
        None => owned(default),
    }
}

/// What the audit shows of the data of a record of one of the three kinds.
pub open spec fn audit_row_of(
    timestamp: Seq<char>,
    custom_type: Seq<char>,
    data: JsonView,
) -> AuditRowView {
    AuditRowView {
        custom_type,
        timestamp,
        trace_id: string_member(data, "trace_id"@),
        state: if custom_type == "trigger_result"@ {
            match bool_member(data, "success"@) {
                Some(true) => "completed"@,
                Some(false) => "failed"@,
                None => "unknown"@,
            }
        } else {
            text_or(string_member(data, "state"@), "unknown"@)
        },
        source_label: string_member(data, "source_label"@),
        event_label: string_member(data, "event_label"@),
        summary: if custom_type == "trigger"@ {
            string_member(data, "payload_summary"@)
        } else if custom_type == "trigger_result"@ {
            match string_member(data, "summary"@) {
                Some(s) => Some(s),
                None => string_member(data, "reason"@),
            }
        } else {
            match string_member(data, "redaction_status"@) {
                Some(s) => Some("redaction_status="@ + s),
                None => None,
            }
        },
        details: if custom_type == "trigger"@ {
            decision_details(data)
        } else if custom_type == "trigger_result"@ {
            result_details(data)
        } else {
            promotion_details(data)
        },
    }
}

/// What the audit shows of an entry of the session: nothing, but for the records of
/// triggers, their results and their promotions that hold data.
pub open spec fn audit_row(entry: SessionTreeEntry) -> Option<AuditRowView> {
    match entry {
        SessionTreeEntry::Custom { timestamp, custom_type, data: Some(data) } => if custom_type@
            == "trigger"@ || custom_type@ == "trigger_result"@ || custom_type@
            == "trigger_promotion"@ {
            Some(audit_row_of(timestamp@, custom_type@, data@))
        } else {
            None
        },
        _ => None,
    }
}

fn trigger_audit_row(entry: &SessionTreeEntry) -> (r: Option<TriggerAuditRow>)
    ensures
        match r {
            Some(row) => audit_row(*entry) == Some(row@),
            None => audit_row(*entry) is None,
        },
{
    let (timestamp, custom_type, data) = match entry {
        SessionTreeEntry::Custom { timestamp, custom_type, data: Some(data) } => (
            timestamp,
            custom_type,
            data,
        ),
        _ => {
            return None;
        },
    };
    let is_trigger = custom_type.as_str().eq("trigger");
    let is_result = custom_type.as_str().eq("trigger_result");
    if !is_trigger && !is_result && !custom_type.as_str().eq("trigger_promotion") {
        return None;
    }
    let state = if is_result {
        match data.bool_field("success") {
            Some(success) => if success {
                owned("completed")
            } else {
                owned("failed")
            },
            None => owned("unknown"),
        }
    } else {
        member_or(data, "state", "unknown")
    };
    let summary = if is_trigger {
        data.text_member("payload_summary")
    } else if is_result {
        match data.text_member("summary") {
            Some(s) => Some(s),
            None => data.text_member("reason"),
        }
    } else {
        match data.text_member("redaction_status") {
            Some(s) => {
                let mut r = owned("redaction_status=");
                r.push_str(s.as_str());
                Some(r)
            },
            None => None,
        }
    };
    let details = if is_trigger {
        trigger_decision_details(data)
    } else if is_result {
        trigger_result_details(data)
    } else {
        trigger_promotion_details(data)
    };
    Some(
        TriggerAuditRow {
            custom_type: custom_type.clone(),
            timestamp: timestamp.clone(),
            trace_id: data.text_member("trace_id"),
            state,
            source_label: data.text_member("source_label"),
            event_label: data.text_member("event_label"),
            summary,
            details,
        },
    )
}

/// The audit rows of the first `n` entries, the newest first.
pub open spec fn audit_rows(entries: Seq<SessionTreeEntry>, n: int) -> Seq<AuditRowView>
    decreases n,
{
    if n <= 0 || n > entries.len() {
        Seq::empty()
    } else {
        match audit_row(entries[n - 1]) {
            Some(row) => seq![row] + audit_rows(entries, n - 1),
            None => audit_rows(entries, n - 1),
        }
    }
}

/// At most `limit` audit rows of a session, the newest first.
pub fn collect_trigger_audit_rows(entries: &Vec<SessionTreeEntry>, limit: usize) -> (r: Vec<
    TriggerAuditRow,
>)
    ensures
        ({
            let all = audit_rows(entries@, entries@.len() as int);
            row_views(r@) == (if all.len() <= limit {
                all
            } else {
                all.take(limit as int)
            })
        }),
{
    let mut r: Vec<TriggerAuditRow> = Vec::new();
    let mut n: usize = entries.len();
    let ghost all = audit_rows(entries@, n as int);
    assert(row_views(r@) + audit_rows(entries@, n as int) =~= all);
    while n > 0 && r.len() < limit
        invariant
            n <= entries@.len(),
            r@.len() <= limit,
            all == row_views(r@) + audit_rows(entries@, n as int),
        decreases n,
    {
        let ghost before = row_views(r@);
        if let Some(row) = trigger_audit_row(&entries[n - 1]) {
            let ghost rest = audit_rows(entries@, n - 1);
            r.push(row);
            assert(row_views(r@) =~= before.push(row@));
            assert(before + (seq![row@] + rest) =~= before.push(row@) + rest);
        }
        n -= 1;
    }
    proof {
        let rest = audit_rows(entries@, n as int);
        assert(row_views(r@).len() == r@.len());
        if all.len() <= limit {
            assert(rest.len() == 0);
            assert(all =~= row_views(r@));
        } else {
            assert(all.take(limit as int) =~= row_views(r@));
        }
    }
    r
}

/// The details of an audit row, indented.
pub open spec fn detail_lines(details: Seq<Seq<char>>, n: int) -> Seq<Seq<char>>
    decreases n,
{
    if n <= 0 || n > details.len() {
        Seq::empty()
    } else {
        detail_lines(details, n - 1).push("      "@ + details[n - 1])
    }
}

/// The lines of one audit row.
pub open spec fn audit_row_lines(row: AuditRowView) -> Seq<Seq<char>> {
    let first = seq![
        "  - "@ + row.timestamp + "  "@ + row.custom_type + "/"@ + row.state + "  trace="@
            + text_or(row.trace_id, "unknown-trace"@) + "  "@ + text_or(row.source_label, "-"@)
            + " / "@ + text_or(row.event_label, "-"@),
    ];
    noted(first, "      "@, row.summary, 160) + detail_lines(row.details, row.details.len() as int)
}

fn opt_or(o: &Option<String>, default: &str) -> (r: String)
    ensures
        r@ == text_or(opt_text(*o), default@),
{
    match o {
        Some(s) => s.clone(),
        None => owned(default),
    }
}

fn render_audit_row(row: &TriggerAuditRow) -> (lines: Vec<String>)
    ensures
        texts(lines@) == audit_row_lines(row@),
{
    let mut lines: Vec<String> = Vec::new();
    let mut first = owned("  - ");
    first.push_str(row.timestamp.as_str());
    first.push_str("  ");
    first.push_str(row.custom_type.as_str());
    first.push_str("/");
    first.push_str(row.state.as_str());
    first.push_str("  trace=");
    first.push_str(opt_or(&row.trace_id, "unknown-trace").as_str());
    first.push_str("  ");
    first.push_str(opt_or(&row.source_label, "-").as_str());
    first.push_str(" / ");
    first.push_str(opt_or(&row.event_label, "-").as_str());
    lines.push(first);
    if let Some(summary) = &row.summary {
        let mut line = owned("      ");
        line.push_str(preview_text(summary.as_str(), 160).as_str());
        lines.push(line);
    }
    let ghost head = texts(lines@);
    let ghost details = texts(row.details@);
    let mut i: usize = 0;
    assert(head + detail_lines(details, 0) =~= head);
    while i < row.details.len()
        invariant
            i <= row.details@.len(),
            details == texts(row.details@),
            texts(lines@) == head + detail_lines(details, i as int),
        decreases row.details@.len() - i,
    {
        let mut line = owned("      ");
        line.push_str(row.details[i].as_str());
        lines.push(line);
        assert(details[i as int] == row.details@[i as int]@);
        assert(head + detail_lines(details, i + 1) =~= (head + detail_lines(
            details,
            i as int,
        )).push(line@));
        i += 1;
    }
    lines
}

/// The lines of the first `n` audit rows.
pub open spec fn audit_lines(rows: Seq<AuditRowView>, n: int) -> Seq<Seq<char>>
    decreases n,
{
    if n <= 0 || n > rows.len() {
        seq!["Recent trigger audit ("@ + digits(rows.len()) + "):"@]
    } else {
        audit_lines(rows, n - 1) + audit_row_lines(rows[n - 1])
    }
}

/// The list of the audit rows.
pub fn render_trigger_audit(rows: &Vec<TriggerAuditRow>) -> (lines: Vec<String>)
    ensures
        texts(lines@) == (if rows@.len() == 0 {
            seq!["(no trigger audit entries in this session)"@]
        } else {
            audit_lines(row_views(rows@), rows@.len() as int)
        }),
{
    let mut lines: Vec<String> = Vec::new();
    if rows.len() == 0 {
        lines.push(owned("(no trigger audit entries in this session)"));
        return lines;
    }
    let mut head = owned("Recent trigger audit (");
    head.push_str(decimal_size(rows.len()).as_str());
    head.push_str("):");
    lines.push(head);
    let ghost views = row_views(rows@);
    let mut i: usize = 0;
    while i < rows.len()
        invariant
            i <= rows@.len(),
            views == row_views(rows@),
            texts(lines@) == audit_lines(views, i as int),
        decreases rows@.len() - i,
    {
        add_lines(&mut lines, &render_audit_row(&rows[i]));
        i += 1;
    }
    lines
}

// Laws.

proof fn lemma_rule_counts(rules: Seq<DynamicTriggerRule>, n: int)
    requires
        0 <= n <= rules.len(),
    ensures
        rule_counts(rules, n).0 <= n,
        rule_counts(rules, n).1 <= n,
        rule_counts(rules, n).2 <= n,
    decreases n,
{
    if n > 0 {
        lemma_rule_counts(rules, n - 1);
    }
}

/// No count of the status exceeds the number of the rules, so that none of the differences
/// shown is negative.
pub proof fn law_rule_counts_are_bounded(rules: Seq<DynamicTriggerRule>)
    ensures
        rule_counts(rules, rules.len() as int).0 <= rules.len(),
        rule_counts(rules, rules.len() as int).1 <= rules.len(),
        rule_counts(rules, rules.len() as int).2 <= rules.len(),
{
    lemma_rule_counts(rules, rules.len() as int);
}

proof fn lemma_rule_lines(rules: Seq<DynamicTriggerRule>, n: int)
    requires
        0 <= n <= rules.len(),
    ensures
        rule_lines(rules, n).len() == n,
        forall|i: int| 0 <= i < n ==> (#[trigger] rule_lines(rules, n)[i]) == rule_line(rules[i]),
    decreases n,
{
    if n > 0 {
        lemma_rule_lines(rules, n - 1);
    }
}

/// The list of the rules is never longer than the limit, but for the line that tells how many
/// are left out, and shows the rules in order.
pub proof fn law_rule_list_is_capped(rules: Seq<DynamicTriggerRule>, limit: int)
    requires
        limit >= 0,
    ensures
        rules_tail(rules, limit).len() <= limit + 1,
        forall|i: int|
            0 <= i < limit && i < rules.len() ==> (#[trigger] rules_tail(rules, limit)[i])
                == rule_line(rules[i]),
{
    let shown = if rules.len() < limit {
        rules.len() as int
    } else {
        limit
    };
    lemma_rule_lines(rules, shown);
}

proof fn lemma_rows_prefix(entries: Seq<SessionTreeEntry>, e: SessionTreeEntry, n: int)
    requires
        n <= entries.len(),
    ensures
        audit_rows(entries.push(e), n) == audit_rows(entries, n),
    decreases n,
{
    if n > 0 {
        lemma_rows_prefix(entries, e, n - 1);
    }
}

/// The audit shows the newest entry first, and only entries of triggers that carry data.
pub proof fn law_audit_shows_the_newest_first(entries: Seq<SessionTreeEntry>, e: SessionTreeEntry)
    ensures
        ({
            let before = audit_rows(entries, entries.len() as int);
            let after = audit_rows(entries.push(e), entries.len() as int + 1);
            match e {
                SessionTreeEntry::Custom { timestamp, custom_type, data: Some(data) } => if custom_type@
                    == "trigger"@ || custom_type@ == "trigger_result"@ || custom_type@
                    == "trigger_promotion"@ {
                    after.len() == before.len() + 1 && after.skip(1) == before
                        && after[0].timestamp == timestamp@ && after[0].custom_type == custom_type@
                        && after[0].trace_id == string_member(data@, "trace_id"@)
                } else {
                    after == before
                },
                _ => after == before,
            }
        }),
{
    lemma_rows_prefix(entries, e, entries.len() as int);
    let before = audit_rows(entries, entries.len() as int);
    if let Some(row) = audit_row(e) {
        assert((seq![row] + before).skip(1) =~= before);
    }
}

proof fn lemma_rules_filtered(rules: Seq<DynamicTriggerRule>, n: int)
    requires
        0 <= n <= rules.len(),
    ensures
        rule_counts(rules, n).0 == rules.take(n).filter(|r: DynamicTriggerRule| r.enabled).len(),
        rule_counts(rules, n).1 == rules.take(n).filter(|r: DynamicTriggerRule| r.fire_once).len(),
        rule_counts(rules, n).2 == rules.take(n).filter(
            |r: DynamicTriggerRule| r.promote_to_chat,
        ).len(),
    decreases n,
{
    reveal(Seq::filter);
    if n > 0 {
        lemma_rules_filtered(rules, n - 1);
        assert(rules.take(n).drop_last() =~= rules.take(n - 1));
    }
}

/// Rules are counted by what each of them is.
pub proof fn law_rules_are_counted(rules: Seq<DynamicTriggerRule>)
    ensures
        rule_counts(rules, rules.len() as int).0 == rules.filter(
            |r: DynamicTriggerRule| r.enabled,
        ).len(),
        rule_counts(rules, rules.len() as int).1 == rules.filter(
            |r: DynamicTriggerRule| r.fire_once,
        ).len(),
        rule_counts(rules, rules.len() as int).2 == rules.filter(
            |r: DynamicTriggerRule| r.promote_to_chat,
        ).len(),
{
    lemma_rules_filtered(rules, rules.len() as int);
    assert(rules.take(rules.len() as int) =~= rules);
}

proof fn lemma_source_counts(hooks: Seq<NotificationHookStatus>, n: int)
    requires
        0 <= n <= hooks.len(),
    ensures
        source_counts(hooks, n).1 == hooks.take(n).filter(
            |h: NotificationHookStatus| h.state is Connected,
        ).len(),
        source_counts(hooks, n).2 == hooks.take(n).filter(
            |h: NotificationHookStatus| h.requires_attention is Some,
        ).len(),
    decreases n,
{
    reveal(Seq::filter);
    if n > 0 {
        lemma_source_counts(hooks, n - 1);
        assert(hooks.take(n).drop_last() =~= hooks.take(n - 1));
    }
}

/// Sources are counted as connected, and as in need of attention, by what each of them says.
pub proof fn law_sources_are_counted(hooks: Seq<NotificationHookStatus>)
    ensures
        source_counts(hooks, hooks.len() as int).1 == hooks.filter(
            |h: NotificationHookStatus| h.state is Connected,
        ).len(),
        source_counts(hooks, hooks.len() as int).2 == hooks.filter(
            |h: NotificationHookStatus| h.requires_attention is Some,
        ).len(),
{
    lemma_source_counts(hooks, hooks.len() as int);
    assert(hooks.take(hooks.len() as int) =~= hooks);
}

/// Each rule has its own line, in the order of the rules.
pub proof fn law_rules_are_listed_in_order(rules: Seq<DynamicTriggerRule>, n: int, k: int)
    requires
        0 <= k < n <= rules.len(),
    ensures
        rule_lines(rules, n).len() == n,
        rule_lines(rules, n)[k] == rule_line(rules[k]),
    decreases n,
{
    reveal_with_fuel(rule_lines, 2);
    if k < n - 1 {
        law_rules_are_listed_in_order(rules, n - 1, k);
    } else if n > 1 {
        law_rules_are_listed_in_order(rules, n - 1, 0);
    }
}

/// What came of a trigger is told as completed or failed by whether it succeeded.
pub proof fn law_results_are_told_as_they_ended(
    timestamp: Seq<char>,
    members: Map<Seq<char>, JsonView>,
)
    ensures
        members.contains_key("success"@) && members["success"@] == JsonView::Bool(true)
            ==> audit_row_of(timestamp, "trigger_result"@, JsonView::Object(members)).state
            == "completed"@,
        members.contains_key("success"@) && members["success"@] == JsonView::Bool(false)
            ==> audit_row_of(timestamp, "trigger_result"@, JsonView::Object(members)).state
            == "failed"@,
        !members.contains_key("success"@) ==> audit_row_of(
            timestamp,
            "trigger_result"@,
            JsonView::Object(members),
        ).state == "unknown"@,
{
}

} // verus!
