//! The services that one daemon process owns.

use crate::commands::triggers::{CronJob, DynamicTriggerRule};
use crate::commands::CommandOutput;
use crate::text::{owned, texts};
use crate::text_map::TextMap;
use vstd::prelude::*;

verus! {

/// A session that the process has installed.
#[derive(Debug)]
pub struct InstalledSession {
    pub cwd: String,
    /// The number of the cell through which its tools reach its harness.
    pub cell: u64,
}

/// Shared services of one daemon process.
#[derive(Debug)]
pub struct DaemonServices {
    pub command_output: CommandOutput,
    pub dynamic_triggers: Vec<DynamicTriggerRule>,
    /// How often the rules are checked, in seconds, once it is settled.
    pub trigger_poll_secs: Option<u64>,
    pub cron: Vec<CronJob>,
    /// The sessions that are installed, by their identifiers.
    pub sessions: TextMap<InstalledSession>,
    /// Whether the activator of sessions is there. It is installed once.
    pub activator_installed: bool,
    /// Whether searches may use the index server.
    pub tgrep_enabled: bool,
    /// The keys that the controller gave, by provider.
    pub configured_api_keys: TextMap<String>,
}

pub const ACTIVATOR_INSTALLED: &'static str = "session activator already installed";

/// Whether services are those of a process that has just begun.
pub open spec fn is_fresh(s: DaemonServices) -> bool {
    &&& texts(s.command_output.lines@) == Seq::<Seq<char>>::empty()
    &&& s.dynamic_triggers@ == Seq::<DynamicTriggerRule>::empty()
    &&& s.trigger_poll_secs is None
    &&& s.cron@ == Seq::<CronJob>::empty()
    &&& s.sessions@ == Map::<Seq<char>, InstalledSession>::empty()
    &&& !s.activator_installed
    &&& s.tgrep_enabled
    &&& s.configured_api_keys@ == Map::<Seq<char>, String>::empty()
}

impl Default for DaemonServices {
    fn default() -> (r: DaemonServices)
        ensures
            is_fresh(r),
    {
        DaemonServices {
            command_output: CommandOutput::new(),
            dynamic_triggers: Vec::new(),
            trigger_poll_secs: None,
            cron: Vec::new(),
            sessions: TextMap::new(),
            activator_installed: false,
            tgrep_enabled: true,
            configured_api_keys: TextMap::new(),
        }
    }
}

impl DaemonServices {
    pub fn new() -> (r: DaemonServices)
        ensures
            is_fresh(r),
    {
        DaemonServices::default()
    }

    /// The services with the keys that the controller gave.
    pub fn with_configured_api_keys(self, keys: TextMap<String>) -> (r: DaemonServices)
        ensures
            r == (DaemonServices { configured_api_keys: keys, ..self }),
    {
        DaemonServices { configured_api_keys: keys, ..self }
    }

    pub fn with_command_output(self, command_output: CommandOutput) -> (r: DaemonServices)
        ensures
            r == (DaemonServices { command_output, ..self }),
    {
        DaemonServices { command_output, ..self }
    }

    /// The services, without the index server where it is not wanted. What is switched off
    /// stays off.
    pub fn with_tgrep_enabled(self, enabled: bool) -> (r: DaemonServices)
        ensures
            r == (DaemonServices { tgrep_enabled: self.tgrep_enabled && enabled, ..self }),
    {
        if enabled {
            self
        } else {
            DaemonServices { tgrep_enabled: false, ..self }
        }
    }

    /// Settles how often the rules are checked.
    pub fn set_poll_interval_secs(&mut self, secs: u64)
        ensures
            *final(self) == (DaemonServices { trigger_poll_secs: Some(secs), ..*old(self) }),
    {
        self.trigger_poll_secs = Some(secs);
    }

    /// Installs the activator of sessions, the first time.
    pub fn install_activator(&mut self) -> (r: Result<(), String>)
        ensures
            old(self).activator_installed ==> (r matches Err(e) && e@ == ACTIVATOR_INSTALLED@),
            !old(self).activator_installed ==> r is Ok,
            *final(self) == (DaemonServices { activator_installed: true, ..*old(self) }),
    {
        if self.activator_installed {
            return Err(owned(ACTIVATOR_INSTALLED));
        }
        self.activator_installed = true;
        Ok(())
    }

    /// Installs a session, in place of what was installed under its identifier.
    pub fn install_session(&mut self, session_id: &str, cwd: &str, cell: u64)
        ensures
            final(self).sessions@.dom() == old(self).sessions@.dom().insert(session_id@),
            forall|id: Seq<char>|
                id != session_id@ && #[trigger] old(self).sessions@.dom().contains(id)
                    ==> final(self).sessions@[id] == old(self).sessions@[id],
            final(self).sessions@[session_id@].cwd@ == cwd@,
            final(self).sessions@[session_id@].cell == cell,
            final(self).command_output == old(self).command_output,
            final(self).dynamic_triggers == old(self).dynamic_triggers,
            final(self).trigger_poll_secs == old(self).trigger_poll_secs,
            final(self).cron == old(self).cron,
            final(self).activator_installed == old(self).activator_installed,
            final(self).tgrep_enabled == old(self).tgrep_enabled,
            final(self).configured_api_keys == old(self).configured_api_keys,
    {
        let session = InstalledSession { cwd: owned(cwd), cell };
        self.sessions.insert(owned(session_id), session);
        assert(self.sessions@.dom() =~= old(self).sessions@.dom().insert(session_id@));
    }

    /// The cell and the directory with which the launcher of a session is built again when
    /// its model changes. A session that was never installed has none.
    pub fn launcher_of(&self, session_id: &str) -> (r: Option<(u64, String)>)
        ensures
            match r {
                Some((cell, cwd)) => {
                    &&& self.sessions@.dom().contains(session_id@)
                    &&& cell == self.sessions@[session_id@].cell
                    &&& cwd@ == self.sessions@[session_id@].cwd@
                },
                None => !self.sessions@.dom().contains(session_id@),
            },
    {
        match self.sessions.get(session_id) {
            Some(s) => Some((s.cell, s.cwd.clone())),
            None => None,
        }
    }

    /// The directory that a session is built in: its own where it is installed, else the one
    /// that the daemon began in.
    pub fn session_dir(&self, session_id: &str, startup_cwd: &str) -> (r: String)
        ensures
            r@ == (if self.sessions@.dom().contains(session_id@) {
                self.sessions@[session_id@].cwd@
            } else {
                startup_cwd@
            }),
    {
        match self.sessions.get(session_id) {
            Some(s) => s.cwd.clone(),
            None => owned(startup_cwd),
        }
    }
}

} // verus!
