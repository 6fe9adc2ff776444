//! The sandbox environment, which offers no operation yet: every one fails at once.

use crate::executor::{ExecutorError, ExecutorKind, ProcessOutput};
use vstd::prelude::*;

verus! {

/// The sandbox environment.
#[derive(Clone, Copy, Debug)]
pub struct SandboxExecutor;

/// Whether an error says that the sandbox does not offer the operation.
pub open spec fn is_unsupported(e: ExecutorError) -> bool {
    e == ExecutorError::UnsupportedKind(ExecutorKind::Sandbox)
}

impl SandboxExecutor {
    pub fn new() -> (r: SandboxExecutor)
        ensures
            r == SandboxExecutor,
    {
        SandboxExecutor
    }

    pub fn kind(&self) -> (r: ExecutorKind)
        ensures
            r == ExecutorKind::Sandbox,
    {
        ExecutorKind::Sandbox
    }

    fn unsupported() -> (r: ExecutorError)
        ensures
            is_unsupported(r),
    {
        ExecutorError::UnsupportedKind(ExecutorKind::Sandbox)
    }

    pub fn read_file(&self, path: &str) -> (r: Result<String, ExecutorError>)
        ensures
            r matches Err(e) && is_unsupported(e),
    {
        Err(Self::unsupported())
    }

    pub fn write_file(&self, path: &str, content: &str) -> (r: Result<(), ExecutorError>)
        ensures
            r matches Err(e) && is_unsupported(e),
    {
        Err(Self::unsupported())
    }

    pub fn run_command(&self, cwd: &str, argv: &Vec<String>) -> (r: Result<
        ProcessOutput,
        ExecutorError,
    >)
        ensures
            r matches Err(e) && is_unsupported(e),
    {
        Err(Self::unsupported())
    }

    pub fn list_dir(&self, path: &str) -> (r: Result<Vec<String>, ExecutorError>)
        ensures
            r matches Err(e) && is_unsupported(e),
    {
        Err(Self::unsupported())
    }

    pub fn grep(&self, pattern: &str, path: &str) -> (r: Result<Vec<String>, ExecutorError>)
        ensures
            r matches Err(e) && is_unsupported(e),
    {
        Err(Self::unsupported())
    }

    pub fn find(&self, glob: &str, path: &str) -> (r: Result<Vec<String>, ExecutorError>)
        ensures
            r matches Err(e) && is_unsupported(e),
    {
        Err(Self::unsupported())
    }

    pub fn git(&self, args: &Vec<String>) -> (r: Result<ProcessOutput, ExecutorError>)
        ensures
            r matches Err(e) && is_unsupported(e),
    {
        Err(Self::unsupported())
    }
}

} // verus!
