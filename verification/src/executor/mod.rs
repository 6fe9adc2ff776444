//! Execution environments: where tools run, and what they may do there.

use crate::text::{
    ascii_lowered, debug_text, owned, quoted, to_ascii_lowercase, trim, trimmed,
};
use vstd::prelude::*;

pub mod file_lock;
pub mod local;
pub mod sandbox;

verus! {

/// The kind of an execution environment.
#[derive(Clone, Copy, Debug, PartialEq, Eq, Structural)]
pub enum ExecutorKind {
    Local,
    Sandbox,
}

/// Why an operation of an executor failed.
#[derive(Debug)]
pub enum ExecutorError {
    Other(String),
    /// The kind of the executor does not offer the operation.
    UnsupportedKind(ExecutorKind),
}

/// Whether an error carries a given message.
pub open spec fn is_other(e: ExecutorError, message: Seq<char>) -> bool {
    e matches ExecutorError::Other(m) && m@ == message
}

/// The result of a process.
#[derive(Debug)]
pub struct ProcessOutput {
    pub stdout: String,
    pub stderr: String,
    pub exit_code: i32,
}

/// The refusal of an unknown kind.
pub open spec fn invalid_kind_text(kind: Seq<char>) -> Seq<char> {
    "invalid executor kind "@ + debug_text(kind) + ": expected \"local\" or \"sandbox\""@
}

/// The kind that a setting names, whatever the case of its letters and the white space
/// around it.
pub fn parse_executor_kind(raw: &str) -> (r: Result<ExecutorKind, String>)
    ensures
        ({
            let name = ascii_lowered(trimmed(raw@));
            if name == "local"@ {
                r == Ok::<ExecutorKind, String>(ExecutorKind::Local)
            } else if name == "sandbox"@ {
                r == Ok::<ExecutorKind, String>(ExecutorKind::Sandbox)
            } else {
                r matches Err(e) && e@ == invalid_kind_text(name)
            }
        }),
{
    let name = to_ascii_lowercase(trim(raw).as_str());
    if name.as_str().eq("local") {
        Ok(ExecutorKind::Local)
    } else if name.as_str().eq("sandbox") {
        Ok(ExecutorKind::Sandbox)
    } else {
        let mut e = owned("invalid executor kind ");
        e.push_str(quoted(name.as_str()).as_str());
        e.push_str(": expected \"local\" or \"sandbox\"");
        Err(e)
    }
}

/// An execution environment.
#[derive(Debug)]
pub enum Executor {
    Local(local::LocalExecutor),
    Sandbox(sandbox::SandboxExecutor),
}

/// The kind of an execution environment.
pub open spec fn kind_of(e: Executor) -> ExecutorKind {
    match e {
        Executor::Local(_) => ExecutorKind::Local,
        Executor::Sandbox(_) => ExecutorKind::Sandbox,
    }
}

impl Executor {
    /// The kind of the environment.
    pub fn kind(&self) -> (r: ExecutorKind)
        ensures
            r == kind_of(*self),
    {
        match self {
            Executor::Local(_) => ExecutorKind::Local,
            Executor::Sandbox(_) => ExecutorKind::Sandbox,
        }
    }
}

/// The environment of a kind; a local one works in `cwd`.
pub fn executor_for_kind(kind: ExecutorKind, cwd: String) -> (r: Executor)
    ensures
        kind_of(r) == kind,
        r matches Executor::Local(l) ==> l.cwd == cwd,
{
    match kind {
        ExecutorKind::Local => Executor::Local(local::LocalExecutor::with_cwd(cwd)),
        ExecutorKind::Sandbox => Executor::Sandbox(sandbox::SandboxExecutor::new()),
    }
}

/// The local environment that works in `cwd`.
pub fn executor_for_cwd(cwd: String) -> (r: Executor)
    ensures
        r matches Executor::Local(l) && l.cwd == cwd,
{
    executor_for_kind(ExecutorKind::Local, cwd)
}

} // verus!
