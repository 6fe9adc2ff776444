//! The hooks that one event sets off, one rule after the other.
//!
//! A rule runs its command first, and sends its webhook only where the command did not fail.
//! A rule that fails is warned of and keeps no later rule from running; a run that is
//! cancelled starts no further rule.

use crate::hooks::event::{event_name, EventData};
use crate::hooks::{
    as_positions, failure_text, firing, rule_views, HookRule, HookRunner, OnFailure,
};
use crate::text::opt_text;
use vstd::prelude::*;

verus! {

/// Where a run stands with its current rule.
#[derive(Clone, Copy, Debug, PartialEq, Eq, Structural)]
pub enum RunStage {
    /// The rule has not begun.
    Choosing,
    /// Its command runs.
    Commanding,
    /// Its webhook is being sent.
    Sending,
    Done,
}

/// The rules that an event sets off, and how far they are.
#[derive(Debug)]
pub struct HookRun {
    /// The positions of the rules, in order.
    pub matching: Vec<usize>,
    /// The current rule among them.
    pub at: usize,
    pub stage: RunStage,
}

/// What has come back from outside.
#[derive(Debug)]
pub enum RunEvent {
    /// Whether the run was cancelled, before a rule begins.
    Cancelled(bool),
    CommandEnded(Result<(), String>),
    WebhookEnded(Result<(), String>),
}

/// What is to be done next.
#[derive(Debug)]
pub enum RunAction {
    CheckCancelled,
    RunCommand(String),
    SendWebhook(String),
    Finish,
    /// The event was not awaited.
    Wait,
}

/// The rule that a run is at.
pub open spec fn current_rule(p: HookRun, runner: HookRunner) -> HookRule {
    runner.rules@[p.matching@[p.at as int] as int]
}

/// The command of a rule, where the runner runs commands.
pub open spec fn command_of(runner: HookRunner, rule: HookRule) -> Option<Seq<char>> {
    if runner.runs_commands {
        opt_text(rule.command)
    } else {
        None
    }
}

/// The webhook of a rule, where the runner sends webhooks.
pub open spec fn webhook_of(runner: HookRunner, rule: HookRule) -> Option<Seq<char>> {
    if runner.sends_webhooks {
        opt_text(rule.webhook)
    } else {
        None
    }
}

/// Whether a run goes on with the rule behind the current one, or ends.
pub open spec fn moves_on(p: HookRun, a: RunAction, q: HookRun) -> bool {
    &&& q.at == p.at + 1
    &&& if q.at < q.matching@.len() {
        a is CheckCancelled && q.stage == RunStage::Choosing
    } else {
        a is Finish && q.stage == RunStage::Done
    }
}

/// Whether a run goes on with the webhook of its rule, where it has one.
pub open spec fn goes_to_webhook(p: HookRun, runner: HookRunner, a: RunAction, q: HookRun) -> bool {
    match webhook_of(runner, current_rule(p, runner)) {
        Some(url) => {
            &&& a matches RunAction::SendWebhook(u)
            &&& u@ == url
            &&& q.at == p.at
            &&& q.stage == RunStage::Sending
        },
        None => moves_on(p, a, q),
    }
}

/// What is warned of when the current rule fails.
pub open spec fn rule_warning(p: HookRun, runner: HookRunner, error: Seq<char>) -> Option<Seq<char>> {
    let rule = current_rule(p, runner);
    match rule.on_failure {
        OnFailure::Warn => Some(failure_text(rule.source@, event_name(rule.event), error)),
        OnFailure::Ignore => None,
    }
}

/// One step of a run: from where it stands, and what has come back, to what is done next and
/// what is warned of.
pub open spec fn hook_step(
    p: HookRun,
    runner: HookRunner,
    event: RunEvent,
    a: RunAction,
    warning: Option<Seq<char>>,
    q: HookRun,
) -> bool {
    &&& q.matching == p.matching
    &&& match (p.stage, event) {
        (RunStage::Choosing, RunEvent::Cancelled(true)) => a is Finish && warning is None && q.at
            == p.at && q.stage == RunStage::Done,
        (RunStage::Choosing, RunEvent::Cancelled(false)) => warning is None && match command_of(
            runner,
            current_rule(p, runner),
        ) {
            Some(command) => {
                &&& a matches RunAction::RunCommand(c)
                &&& c@ == command
                &&& q.at == p.at
                &&& q.stage == RunStage::Commanding
            },
            None => goes_to_webhook(p, runner, a, q),
        },
        (RunStage::Commanding, RunEvent::CommandEnded(Ok(_))) => warning is None
            && goes_to_webhook(p, runner, a, q),
        (RunStage::Commanding, RunEvent::CommandEnded(Err(e))) => warning == rule_warning(
            p,
            runner,
            e@,
        ) && moves_on(p, a, q),
        (RunStage::Sending, RunEvent::WebhookEnded(Ok(_))) => warning is None && moves_on(p, a, q),
        (RunStage::Sending, RunEvent::WebhookEnded(Err(e))) => warning == rule_warning(
            p,
            runner,
            e@,
        ) && moves_on(p, a, q),
        _ => a is Wait && warning is None && q.at == p.at && q.stage == p.stage,
    }
}

impl HookRun {
    /// Whether the run is one of a runner: its rules are there, and it is at one of them until
    /// it is done.
    pub open spec fn well_formed(self, runner: HookRunner) -> bool {
        &&& forall|i: int|
            0 <= i < self.matching@.len() ==> (#[trigger] self.matching@[i]) < runner.rules@.len()
        &&& self.stage != RunStage::Done ==> self.at < self.matching@.len()
    }

    /// The run that an event sets off.
    pub fn start(runner: &HookRunner, data: &EventData) -> (r: (HookRun, RunAction))
        ensures
            r.0.well_formed(*runner),
            as_positions(r.0.matching@) == firing(
                rule_views(runner.rules@),
                data@,
                runner.rules@.len() as int,
            ),
            r.0.at == 0,
            if r.0.matching@.len() > 0 {
                r.1 is CheckCancelled && r.0.stage == RunStage::Choosing
            } else {
                r.1 is Finish && r.0.stage == RunStage::Done
            },
    {
        let matching = runner.matching(data);
        if matching.len() == 0 {
            return (HookRun { matching, at: 0, stage: RunStage::Done }, RunAction::Finish);
        }
        (HookRun { matching, at: 0, stage: RunStage::Choosing }, RunAction::CheckCancelled)
    }

    fn move_on(&mut self) -> (r: RunAction)
        requires
            old(self).at < old(self).matching@.len(),
        ensures
            final(self).matching == old(self).matching,
            moves_on(*old(self), r, *final(self)),
    {
        let count: usize = self.matching.len();
        self.at = self.at + 1;
        if self.at < count {
            self.stage = RunStage::Choosing;
            RunAction::CheckCancelled
        } else {
            self.stage = RunStage::Done;
            RunAction::Finish
        }
    }

    fn go_to_webhook(&mut self, runner: &HookRunner) -> (r: RunAction)
        requires
            old(self).well_formed(*runner),
            old(self).at < old(self).matching@.len(),
        ensures
            final(self).matching == old(self).matching,
            goes_to_webhook(*old(self), *runner, r, *final(self)),
    {
        let plan = runner.plan(&runner.rules[self.matching[self.at]]);
        match plan.webhook {
            Some(url) => {
                self.stage = RunStage::Sending;
                RunAction::SendWebhook(url)
            },
            None => self.move_on(),
        }
    }

    /// Takes what has come back from outside, and says what to do next and what to warn of.
    pub fn step(&mut self, runner: &HookRunner, event: &RunEvent) -> (r: (
        RunAction,
        Option<String>,
    ))
        requires
            old(self).well_formed(*runner),
        ensures
            final(self).well_formed(*runner),
            hook_step(*old(self), *runner, *event, r.0, opt_text(r.1), *final(self)),
    {
        match (self.stage, event) {
            (RunStage::Choosing, RunEvent::Cancelled(cancelled)) => {
                if *cancelled {
                    self.stage = RunStage::Done;
                    return (RunAction::Finish, None);
                }
                let plan = runner.plan(&runner.rules[self.matching[self.at]]);
                match plan.command {
                    Some(command) => {
                        self.stage = RunStage::Commanding;
                        (RunAction::RunCommand(command), None)
                    },
                    None => (self.go_to_webhook(runner), None),
                }
            },
            (RunStage::Commanding, RunEvent::CommandEnded(result)) => match result {
                Ok(_) => (self.go_to_webhook(runner), None),
                Err(e) => {
                    let warning = runner.rules[self.matching[self.at]].warning(e.as_str());
                    (self.move_on(), warning)
                },
            },
            (RunStage::Sending, RunEvent::WebhookEnded(result)) => {
                let warning = match result {
                    Ok(_) => None,
                    Err(e) => runner.rules[self.matching[self.at]].warning(e.as_str()),
                };
                (self.move_on(), warning)
            },
            _ => (RunAction::Wait, None),
        }
    }
}

// Laws.

/// The webhook of a rule is not sent after its command has failed: the run then goes on with
/// the next rule.
pub proof fn law_failed_commands_send_nothing(
    p: HookRun,
    runner: HookRunner,
    event: RunEvent,
    a: RunAction,
    warning: Option<Seq<char>>,
    q: HookRun,
)
    requires
        hook_step(p, runner, event, a, warning, q),
    ensures
        p.stage == RunStage::Commanding && (event matches RunEvent::CommandEnded(Err(_))) ==> !(
        a is SendWebhook) && q.at == p.at + 1,
{
}

/// A failure never ends a run before its last rule, and a run that is cancelled starts no
/// further rule.
pub proof fn law_only_cancelling_stops_a_run(
    p: HookRun,
    runner: HookRunner,
    event: RunEvent,
    a: RunAction,
    warning: Option<Seq<char>>,
    q: HookRun,
)
    requires
        p.well_formed(runner),
        hook_step(p, runner, event, a, warning, q),
    ensures
        a is Finish && q.at < q.matching@.len() ==> event == RunEvent::Cancelled(true),
        p.stage == RunStage::Choosing && event == RunEvent::Cancelled(true) ==> a is Finish && q.at
            == p.at,
        a is Finish ==> q.stage == RunStage::Done,
        p.stage == RunStage::Done ==> a is Wait,
{
}

/// How far a run is from its end.
pub open spec fn run_left(p: HookRun) -> int {
    match p.stage {
        RunStage::Choosing => 3 * (p.matching@.len() - p.at),
        RunStage::Commanding => 3 * (p.matching@.len() - p.at) - 1,
        RunStage::Sending => 3 * (p.matching@.len() - p.at) - 2,
        RunStage::Done => 0,
    }
}

/// Every event that a run awaits brings it nearer to its end.
pub proof fn law_hook_runs_end(
    p: HookRun,
    runner: HookRunner,
    event: RunEvent,
    a: RunAction,
    warning: Option<Seq<char>>,
    q: HookRun,
)
    requires
        p.well_formed(runner),
        q.well_formed(runner),
        hook_step(p, runner, event, a, warning, q),
        !(a is Wait),
    ensures
        0 <= run_left(q) < run_left(p),
{
}

/// A rule that begins runs its command where it has one and commands are run; its webhook is
/// sent where it has no such command, or after the command has ended well.
pub proof fn law_commands_run_before_webhooks(
    p: HookRun,
    runner: HookRunner,
    event: RunEvent,
    a: RunAction,
    warning: Option<Seq<char>>,
    q: HookRun,
)
    requires
        p.well_formed(runner),
        hook_step(p, runner, event, a, warning, q),
    ensures
        ({
            let rule = runner.rules@[p.matching@[p.at as int] as int];
            let runs = runner.runs_commands && rule.command is Some;
            let sends = runner.sends_webhooks && rule.webhook is Some;
            let begins = p.stage == RunStage::Choosing && event == RunEvent::Cancelled(false);
            let went_well = p.stage == RunStage::Commanding && (event
                matches RunEvent::CommandEnded(Ok(_)));
            &&& a is RunCommand <==> begins && runs
            &&& a is SendWebhook <==> sends && (went_well || (begins && !runs))
            &&& a matches RunAction::RunCommand(c) ==> c@ == rule.command->0@ && q.at == p.at
            &&& a matches RunAction::SendWebhook(u) ==> u@ == rule.webhook->0@ && q.at == p.at
        }),
{
}

/// A failure is warned of exactly where its rule asks for it, by the name of the rule and the
/// event; nothing else is warned of.
pub proof fn law_failures_are_warned_of(
    p: HookRun,
    runner: HookRunner,
    event: RunEvent,
    a: RunAction,
    warning: Option<Seq<char>>,
    q: HookRun,
)
    requires
        hook_step(p, runner, event, a, warning, q),
    ensures
        ({
            let rule = runner.rules@[p.matching@[p.at as int] as int];
            let failed = match event {
                RunEvent::CommandEnded(Err(e)) => if p.stage == RunStage::Commanding {
                    Some(e@)
                } else {
                    None
                },
                RunEvent::WebhookEnded(Err(e)) => if p.stage == RunStage::Sending {
                    Some(e@)
                } else {
                    None
                },
                _ => None,
            };
            &&& warning is Some <==> failed is Some && rule.on_failure == OnFailure::Warn
            &&& warning is Some ==> warning->0 == "hook "@ + rule.source@ + " "@ + event_name(
                rule.event,
            ) + " failed: "@ + failed->0
        }),
{
}

} // verus!
