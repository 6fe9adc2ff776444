//! What a client is answered about the commands that it sends to the loop of the daemon.

use crate::text::{copy_texts, owned, texts};
use vstd::prelude::*;

verus! {

pub const CHANNEL_CLOSED: &'static str = "event loop command channel closed";

/// The answer to a command that the loop replies to: its reply, and no where the command did
/// not reach the loop or no reply came.
pub fn replied(sent: bool, reply: Option<bool>) -> (r: bool)
    ensures
        r == (sent && reply == Some(true)),
{
    if !sent {
        return false;
    }
    match reply {
        Some(b) => b,
        None => false,
    }
}

/// The answer to a command that changes the settings, which fails where it did not reach the
/// loop.
pub fn accepted(sent: bool) -> (r: Result<bool, String>)
    ensures
        sent ==> (r matches Ok(b) && b),
        !sent ==> (r matches Err(e) && e@ == CHANNEL_CLOSED@),
{
    if sent {
        Ok(true)
    } else {
        Err(owned(CHANNEL_CLOSED))
    }
}

/// What clients are told of the directories of a daemon.
#[derive(Debug)]
pub struct PathContext {
    pub work_dir: String,
    pub skills_dirs: Vec<String>,
}

impl PathContext {
    /// Takes other directories of skills. They are told to clients whether or not the loop
    /// has heard of them.
    pub fn set_skill_dirs(&mut self, dirs: &Vec<String>)
        ensures
            texts(final(self).skills_dirs@) == texts(dirs@),
            final(self).work_dir == old(self).work_dir,
    {
        self.skills_dirs = copy_texts(dirs);
    }
}

} // verus!
