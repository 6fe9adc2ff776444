//! The health of the export of observations.

use crate::text::owned;
use vstd::prelude::*;

verus! {

/// Whether the export works, and what is wrong where it does not.
#[derive(Debug)]
pub struct ObservabilityStatusSnapshot {
    pub degraded: bool,
    pub message: String,
}

impl Default for ObservabilityStatusSnapshot {
    fn default() -> (r: ObservabilityStatusSnapshot)
        ensures
            !r.degraded,
            r.message@.len() == 0,
    {
        ObservabilityStatusSnapshot { degraded: false, message: String::new() }
    }
}

/// The health of the export, and how often it has changed.
#[derive(Debug)]
pub struct ObservabilityStatus {
    pub state: ObservabilityStatusSnapshot,
    pub revision: u64,
}

/// A status is well-formed where a message is there only while the export does not work.
pub open spec fn is_consistent(s: ObservabilityStatus) -> bool {
    !s.state.degraded ==> s.state.message@.len() == 0
}

impl ObservabilityStatus {
    pub fn new() -> (r: ObservabilityStatus)
        ensures
            !r.state.degraded,
            r.state.message@.len() == 0,
            r.revision == 0,
            is_consistent(r),
    {
        ObservabilityStatus {
            state: ObservabilityStatusSnapshot { degraded: false, message: String::new() },
            revision: 0,
        }
    }

    /// Notes a failure, and says whether anything changed: the same failure again is no
    /// change.
    pub fn record_failure(&mut self, message: &str) -> (changed: bool)
        requires
            old(self).revision < u64::MAX,
        ensures
            final(self).state.degraded,
            final(self).state.message@ == message@,
            changed == !(old(self).state.degraded && old(self).state.message@ == message@),
            final(self).revision == old(self).revision + (if changed {
                1int
            } else {
                0
            }),
            is_consistent(*final(self)),
    {
        if self.state.degraded && self.state.message.as_str().eq(message) {
            return false;
        }
        self.state = ObservabilityStatusSnapshot { degraded: true, message: owned(message) };
        self.revision = self.revision + 1;
        true
    }

    /// Notes a success, and says whether anything changed: it ends a failure.
    pub fn record_success(&mut self) -> (changed: bool)
        requires
            old(self).revision < u64::MAX,
            is_consistent(*old(self)),
        ensures
            !final(self).state.degraded,
            final(self).state.message@.len() == 0,
            changed == old(self).state.degraded,
            final(self).revision == old(self).revision + (if changed {
                1int
            } else {
                0
            }),
            is_consistent(*final(self)),
    {
        if !self.state.degraded {
            return false;
        }
        self.state = ObservabilityStatusSnapshot { degraded: false, message: String::new() };
        self.revision = self.revision + 1;
        true
    }

    pub fn snapshot(&self) -> (r: ObservabilityStatusSnapshot)
        ensures
            r.degraded == self.state.degraded,
            r.message@ == self.state.message@,
    {
        ObservabilityStatusSnapshot {
            degraded: self.state.degraded,
            message: self.state.message.clone(),
        }
    }

    /// Notes what came of an export.
    pub fn report_export_result(&mut self, prefix: &str, result: &Result<(), String>) -> (changed:
        bool)
        requires
            old(self).revision < u64::MAX,
            is_consistent(*old(self)),
        ensures
            match result {
                Ok(_) => !final(self).state.degraded && final(self).state.message@.len() == 0
                    && changed == old(self).state.degraded,
                Err(e) => final(self).state.degraded && final(self).state.message@ == prefix@
                    + ": "@ + e@ && changed == !(old(self).state.degraded && old(
                    self,
                ).state.message@ == prefix@ + ": "@ + e@),
            },
            final(self).revision == old(self).revision + (if changed {
                1int
            } else {
                0
            }),
            is_consistent(*final(self)),
    {
        match result {
            Ok(_) => self.record_success(),
            Err(e) => {
                let mut m = owned(prefix);
                m.push_str(": ");
                m.push_str(e.as_str());
                self.record_failure(m.as_str())
            },
        }
    }
}

} // verus!
