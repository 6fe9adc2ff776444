//! What becomes of a question that the control plane asks the user.

use crate::text::owned;
use vstd::prelude::*;

verus! {

/// The answer to a question.
#[derive(Debug)]
pub enum ControlPlanePromptDecision {
    Allow,
    Deny { reason: Option<String> },
}

/// How the wait for an answer ended.
#[derive(Debug)]
pub enum PromptWait {
    /// No client takes questions.
    NoClient,
    Answered(ControlPlanePromptDecision),
    /// The client left without an answer.
    Closed,
    Cancelled,
}

/// Whether an answer is a refusal for a reason.
pub open spec fn denies(d: ControlPlanePromptDecision, reason: Seq<char>) -> bool {
    d matches ControlPlanePromptDecision::Deny { reason: Some(r) } && r@ == reason
}

fn deny(reason: &str) -> (r: ControlPlanePromptDecision)
    ensures
        denies(r, reason@),
{
    ControlPlanePromptDecision::Deny { reason: Some(owned(reason)) }
}

/// The answer to a question: the client's where it gave one, else a refusal.
pub fn resolve(wait: PromptWait) -> (r: ControlPlanePromptDecision)
    ensures
        match wait {
            PromptWait::NoClient => denies(r, "control-plane prompt client is unavailable"@),
            PromptWait::Answered(d) => r == d,
            PromptWait::Closed => denies(r, "control-plane prompt client closed before a decision"@),
            PromptWait::Cancelled => denies(r, "control-plane prompt cancelled"@),
        },
        r is Allow ==> wait is Answered,
{
    match wait {
        PromptWait::NoClient => deny("control-plane prompt client is unavailable"),
        PromptWait::Answered(d) => d,
        PromptWait::Closed => deny("control-plane prompt client closed before a decision"),
        PromptWait::Cancelled => deny("control-plane prompt cancelled"),
    }
}

} // verus!
