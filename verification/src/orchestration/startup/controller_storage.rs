//! Whether the owner of a daemon's storage is still there, and the directory it works in.

use crate::text::{decimal_size, digits, owned};
use vstd::prelude::*;

verus! {

/// How often the owner is asked, in milliseconds.
pub const STORAGE_WATCH_INTERVAL_MS: u64 = 1_000;

/// How long an answer may take, in milliseconds.
pub const STORAGE_WATCH_TIMEOUT_MS: u64 = 700;

/// After how many failures in a row the daemon ends.
pub const STORAGE_WATCH_FAILURES: usize = 3;

/// The watch over the owner of the storage.
#[derive(Debug)]
pub struct StorageMonitor {
    pub addr: String,
    /// The failures since the owner last answered.
    pub failures: usize,
    pub failure_limit: usize,
}

/// What follows from an answer, or from its absence.
#[derive(Debug)]
pub struct MonitorStep {
    /// The lines to log, in order; the first of a failure is a warning, as is the last.
    pub log: Vec<String>,
    /// Whether the daemon ends.
    pub stop: bool,
}

pub open spec fn recovered_text(addr: Seq<char>, failures: nat) -> Seq<char> {
    "controller storage at "@ + addr + " recovered after "@ + digits(failures)
        + " failed probe(s)"@
}

pub open spec fn probe_failed_text(
    addr: Seq<char>,
    failures: nat,
    limit: nat,
    error: Seq<char>,
) -> Seq<char> {
    "controller storage probe "@ + digits(failures) + "/"@ + digits(limit) + " failed at "@ + addr
        + ": "@ + error
}

pub open spec fn gone_text(addr: Seq<char>, limit: nat) -> Seq<char> {
    "controller storage at "@ + addr + " remained unavailable for "@ + digits(limit)
        + " consecutive probes; shutting down daemon"@
}

/// The failures in a row after one more answer.
pub open spec fn failures_next(failures: nat, ok: bool) -> nat {
    if ok {
        0
    } else {
        failures + 1
    }
}

impl StorageMonitor {
    pub fn new(addr: String, failure_limit: usize) -> (r: StorageMonitor)
        ensures
            r.addr == addr,
            r.failures == 0,
            r.failure_limit == failure_limit,
    {
        StorageMonitor { addr, failures: 0, failure_limit }
    }

    /// Takes note of an answer. The daemon ends once as many in a row failed as the limit
    /// says.
    pub fn probed(&mut self, result: &Result<(), String>) -> (r: MonitorStep)
        requires
            old(self).failures < usize::MAX,
        ensures
            final(self).addr == old(self).addr,
            final(self).failure_limit == old(self).failure_limit,
            final(self).failures == failures_next(old(self).failures as nat, result is Ok),
            r.stop == (result is Err && final(self).failures >= old(self).failure_limit),
            match *result {
                Ok(_) => if old(self).failures > 0 {
                    &&& r.log@.len() == 1
                    &&& r.log@[0]@ == recovered_text(old(self).addr@, old(self).failures as nat)
                } else {
                    r.log@.len() == 0
                },
                Err(e) => {
                    &&& r.log@.len() == if r.stop { 2int } else { 1 }
                    &&& r.log@[0]@ == probe_failed_text(
                        old(self).addr@,
                        final(self).failures as nat,
                        old(self).failure_limit as nat,
                        e@,
                    )
                    &&& r.stop ==> r.log@[1]@ == gone_text(
                        old(self).addr@,
                        old(self).failure_limit as nat,
                    )
                },
            },
    {
        let mut log: Vec<String> = Vec::new();
        match result {
            Ok(_) => {
                if self.failures > 0 {
                    let mut m = owned("controller storage at ");
                    m.push_str(self.addr.as_str());
                    m.push_str(" recovered after ");
                    m.push_str(decimal_size(self.failures).as_str());
                    m.push_str(" failed probe(s)");
                    log.push(m);
                }
                self.failures = 0;
                MonitorStep { log, stop: false }
            },
            Err(e) => {
                self.failures = self.failures + 1;
                let mut m = owned("controller storage probe ");
                m.push_str(decimal_size(self.failures).as_str());
                m.push_str("/");
                m.push_str(decimal_size(self.failure_limit).as_str());
                m.push_str(" failed at ");
                m.push_str(self.addr.as_str());
                m.push_str(": ");
                m.push_str(e.as_str());
                log.push(m);
                let stop = self.failures >= self.failure_limit;
                if stop {
                    let mut g = owned("controller storage at ");
                    g.push_str(self.addr.as_str());
                    g.push_str(" remained unavailable for ");
                    g.push_str(decimal_size(self.failure_limit).as_str());
                    g.push_str(" consecutive probes; shutting down daemon");
                    log.push(g);
                }
                MonitorStep { log, stop }
            },
        }
    }
}

/// The directory that the daemon works in, from what making the path canonical gave. The
/// caller keeps the cause of a failure beside the message.
pub fn canonical_work_dir(path: &str, canonical: &Result<String, String>, is_dir: bool) -> (r: Result<
    String,
    String,
>)
    ensures
        match *canonical {
            Ok(c) => if is_dir {
                r matches Ok(d) && d@ == c@
            } else {
                r matches Err(e) && e@ == "work directory is not a directory: "@ + c@
            },
            Err(_) => r matches Err(e) && e@ == "cd into "@ + path@,
        },
{
    match canonical {
        Ok(c) => if is_dir {
            Ok(c.clone())
        } else {
            let mut e = owned("work directory is not a directory: ");
            e.push_str(c.as_str());
            Err(e)
        },
        Err(_) => {
            let mut e = owned("cd into ");
            e.push_str(path);
            Err(e)
        },
    }
}

/// What keeps a daemon's records.
#[derive(Debug)]
pub enum StorageChoice {
    Local,
    Remote(String),
}

/// A daemon with a controller keeps its records there, another one itself.
pub fn storage_choice(storage_service_addr: &Option<String>) -> (r: StorageChoice)
    ensures
        match *storage_service_addr {
            Some(addr) => r matches StorageChoice::Remote(a) && a@ == addr@,
            None => r is Local,
        },
{
    match storage_service_addr {
        Some(addr) => StorageChoice::Remote(addr.clone()),
        None => StorageChoice::Local,
    }
}

// Laws.

/// The failures in a row after answers that went well or not.
pub open spec fn failures_after(answers: Seq<bool>) -> nat
    decreases answers.len(),
{
    if answers.len() == 0 {
        0
    } else {
        failures_next(failures_after(answers.drop_last()), answers.last())
    }
}

/// The daemon ends exactly when as many answers in a row failed as the limit says: one that
/// arrives in between keeps it alive.
pub proof fn law_daemon_ends_after_failures_in_a_row(answers: Seq<bool>, limit: nat)
    requires
        limit > 0,
    ensures
        failures_after(answers) >= limit <==> answers.len() >= limit && forall|i: int|
            answers.len() - limit <= i < answers.len() ==> !answers[i],
    decreases answers.len(),
{
    if answers.len() > 0 {
        let before = answers.drop_last();
        if limit > 1 {
            law_daemon_ends_after_failures_in_a_row(before, (limit - 1) as nat);
            if failures_after(answers) >= limit {
                assert(!answers.last());
                assert forall|i: int| answers.len() - limit <= i < answers.len() implies !answers[i] by {
                    if i < before.len() {
                        assert(!before[i]);
                    }
                }
            } else if answers.len() >= limit && (forall|i: int|
                answers.len() - limit <= i < answers.len() ==> !answers[i]) {
                assert(!answers[answers.len() - 1]);
                assert forall|i: int| before.len() - (limit - 1) <= i < before.len() implies !before[i] by {
                    assert(!answers[i]);
                }
            }
        } else {
            assert(answers.last() == answers[answers.len() - 1]);
        }
    }
}

} // verus!
