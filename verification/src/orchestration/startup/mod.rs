//! The start of a daemon: what it was asked for, and what it publishes while it runs.

use crate::json::Json;
use crate::paths::{join_path, joined_path};
use crate::session_tree::{metadata_id, session_id_in};
use crate::text::{
    decimal, digits, find_from, law_decimal_round_trip, lemma_find_from, occurs_at, owned,
    split_once, split_once_text,
};
use vstd::prelude::*;

pub mod controller_storage;
pub mod session_assembly;
pub mod settings;

verus! {

/// The protocol that a daemon serves.
#[derive(Clone, Copy, Debug, PartialEq, Eq, Structural)]
pub enum DaemonTransport {
    Grpc,
    Http,
    Mcp,
}

pub open spec fn transport_label(t: DaemonTransport) -> Seq<char> {
    match t {
        DaemonTransport::Grpc => "grpc"@,
        DaemonTransport::Http => "http"@,
        DaemonTransport::Mcp => "mcp"@,
    }
}

impl DaemonTransport {
    /// The protocol as the log names it.
    pub fn label(self) -> (r: &'static str)
        ensures
            r@ == transport_label(self),
    {
        match self {
            DaemonTransport::Grpc => "grpc",
            DaemonTransport::Http => "http",
            DaemonTransport::Mcp => "mcp",
        }
    }
}

/// The session that a daemon begins with.
#[derive(Debug)]
pub enum SessionSelection {
    New,
    Latest,
    Id(String),
}

/// The directories of a daemon.
#[derive(Debug)]
pub struct DaemonPaths {
    pub base: String,
    pub home: String,
    pub work_dir: String,
    pub extra_skill_dirs: Vec<String>,
}

/// The file of the MCP servers, of the user and of the project.
pub const MCP_FILE: &'static str = "mcp.toml";

/// The file of the hooks, of the user and of the project.
pub const HOOKS_FILE: &'static str = "hooks.toml";

/// The file of the language servers, of the user and of the project.
pub const LSP_FILE: &'static str = "lsp.toml";

impl DaemonPaths {
    /// The file of the user under a name.
    pub fn user_file(&self, name: &str) -> (r: String)
        ensures
            r@ == joined_path(self.base@, name@),
    {
        join_path(self.base.as_str(), name)
    }

    /// The file of the project under a name.
    pub fn project_file(&self, name: &str) -> (r: String)
        ensures
            r@ == joined_path(joined_path(self.work_dir@, ".theway"@), name@),
    {
        join_path(join_path(self.work_dir.as_str(), ".theway").as_str(), name)
    }

    /// The directories with another one to work in.
    pub fn with_work_dir(self, work_dir: String) -> (r: DaemonPaths)
        ensures
            r == (DaemonPaths { work_dir, ..self }),
    {
        DaemonPaths { work_dir, ..self }
    }
}

/// What a daemon is started with.
#[derive(Debug)]
pub struct DaemonOptions {
    pub paths: DaemonPaths,
    pub transport: DaemonTransport,
    pub host: String,
    pub port: u16,
    pub provider: Option<String>,
    pub model: Option<String>,
    pub base_url: Option<String>,
    /// The level of thinking by its name.
    pub thinking: String,
    pub session: SessionSelection,
    pub approve_control_plane: bool,
    pub debug: bool,
    pub trigger_poll_secs: Option<u64>,
    pub builtin_skills: Vec<String>,
    pub storage_service_addr: Option<String>,
    pub executor_kind: Option<String>,
    pub no_tgrep: bool,
    pub api_key: Option<String>,
    pub auto_fetch_models: bool,
}

/// The arguments of the command line that take a decision.
#[derive(Debug)]
pub struct CliChoice {
    pub http: bool,
    pub mcp: bool,
    pub resume_id: Option<String>,
    pub continue_latest: bool,
    pub yes: bool,
    pub always_allow: bool,
}

/// The protocol that the command line asks for: gRPC where it names none.
pub fn chosen_transport(cli: &CliChoice) -> (r: DaemonTransport)
    ensures
        r == (if cli.mcp {
            DaemonTransport::Mcp
        } else if cli.http {
            DaemonTransport::Http
        } else {
            DaemonTransport::Grpc
        }),
{
    if cli.mcp {
        DaemonTransport::Mcp
    } else if cli.http {
        DaemonTransport::Http
    } else {
        DaemonTransport::Grpc
    }
}

/// The session that the command line asks for. An identifier wins over the latest session.
pub fn chosen_session(cli: &CliChoice) -> (r: SessionSelection)
    ensures
        match cli.resume_id {
            Some(id) => r matches SessionSelection::Id(i) && i@ == id@,
            None => if cli.continue_latest {
                r is Latest
            } else {
                r is New
            },
        },
{
    match &cli.resume_id {
        Some(id) => SessionSelection::Id(id.clone()),
        None => if cli.continue_latest {
            SessionSelection::Latest
        } else {
            SessionSelection::New
        },
    }
}

/// Whether the questions of the control plane are answered with yes without asking.
pub fn approves_control_plane(cli: &CliChoice) -> (r: bool)
    ensures
        r == (cli.always_allow || cli.yes),
{
    cli.always_allow || cli.yes
}

/// How the session that was asked for is opened.
#[derive(Debug)]
pub enum SessionOpening {
    /// A session that is written only when something happens in it.
    CreateLazy,
    Resume(Option<String>),
}

/// How the session that was asked for is opened, and whether its transcript is read back.
pub fn select_session(selection: &SessionSelection) -> (r: (SessionOpening, bool))
    ensures
        match *selection {
            SessionSelection::New => r.0 is CreateLazy && !r.1,
            SessionSelection::Latest => (r.0 matches SessionOpening::Resume(None)) && r.1,
            SessionSelection::Id(id) => (r.0 matches SessionOpening::Resume(Some(i)) && i@ == id@)
                && r.1,
        },
{
    match selection {
        SessionSelection::New => (SessionOpening::CreateLazy, false),
        SessionSelection::Latest => (SessionOpening::Resume(None), true),
        SessionSelection::Id(id) => (SessionOpening::Resume(Some(id.clone())), true),
    }
}

/// The identifier in the metadata of the session that was opened.
pub fn read_session_id(metadata: &Result<Json, String>) -> (r: Result<String, String>)
    ensures
        match *metadata {
            Ok(meta) => r matches Ok(id) && id@ == metadata_id(meta@),
            Err(e) => r matches Err(f) && f@ == e@,
        },
{
    match metadata {
        Ok(meta) => Ok(session_id_in(meta)),
        Err(e) => Err(e.clone()),
    }
}

/// How the questions of the control plane are answered.
#[derive(Clone, Copy, Debug, PartialEq, Eq, Structural)]
pub enum ControlPlane {
    AllowAll,
    /// Through a channel to the client.
    Ask,
}

pub fn control_plane(approve: bool) -> (r: ControlPlane)
    ensures
        r == (if approve {
            ControlPlane::AllowAll
        } else {
            ControlPlane::Ask
        }),
{
    if approve {
        ControlPlane::AllowAll
    } else {
        ControlPlane::Ask
    }
}

// Serving.

/// The line that the log begins with.
pub fn starting_line(mode: DaemonTransport, host: &str, port: u16) -> (r: String)
    ensures
        r@ == "thewayd starting in "@ + transport_label(mode) + " mode on "@ + host@ + ":"@
            + digits(port as nat),
{
    let mut r = owned("thewayd starting in ");
    r.push_str(mode.label());
    r.push_str(" mode on ");
    r.push_str(host);
    r.push_str(":");
    r.push_str(decimal(port as u64).as_str());
    r
}

/// What the discovery file of a directory holds: the port and the process.
pub open spec fn port_entry_text(port: nat, pid: nat) -> Seq<char> {
    digits(port) + " "@ + digits(pid)
}

/// What the discovery file of a directory holds.
pub fn port_file_entry(port: u16, pid: u32) -> (r: String)
    ensures
        r@ == port_entry_text(port as nat, pid as nat),
{
    let mut r = decimal(port as u64);
    r.push_str(" ");
    r.push_str(decimal(pid as u64).as_str());
    r
}

/// Whether the entry of a discovery file names a process: it stands behind the first space.
pub open spec fn names_process(entry: Seq<char>, pid: nat) -> bool {
    split_once_text(entry, " "@) matches Some((_, process)) && process == digits(pid)
}

/// Whether a daemon that stops removes the entry of a discovery file: one is removed only where
/// it still names the daemon's own process.
pub fn is_own_entry(entry: &str, pid: u32) -> (r: bool)
    ensures
        r == names_process(entry@, pid as nat),
{
    match split_once(entry, " ") {
        Some((_, process)) => process.as_str().eq(decimal(pid as u64).as_str()),
        None => false,
    }
}

/// The entry of a discovery file, as far as it was found: the process, where it names one,
/// with whether that process lives.
#[derive(Clone, Copy, Debug, PartialEq, Eq, Structural)]
pub enum FoundEntry {
    Nothing,
    WithoutPid,
    Process { alive: bool },
}

/// Whether a daemon that serves MCP removes the entry that it found: one is removed unless
/// its process lives.
pub fn clears_port_file(found: FoundEntry) -> (r: bool)
    ensures
        r == (found is WithoutPid || (found matches FoundEntry::Process { alive } && !alive)),
{
    match found {
        FoundEntry::Nothing => false,
        FoundEntry::WithoutPid => true,
        FoundEntry::Process { alive } => !alive,
    }
}

/// A failure of the MCP server.
pub fn mcp_server_error(error: &str) -> (r: String)
    ensures
        r@ == "mcp server: "@ + error@,
{
    let mut r = owned("mcp server: ");
    r.push_str(error);
    r
}

/// What is noted where the rules or the jobs of a session could not be loaded.
pub fn load_warning(what: &str, error: &str) -> (r: String)
    ensures
        r@ == what@ + ": "@ + error@,
{
    let mut r = owned(what);
    r.push_str(": ");
    r.push_str(error);
    r
}

// Laws.

proof fn lemma_digits_have_no_space(n: nat)
    ensures
        digits(n).len() > 0,
        forall|i: int| 0 <= i < digits(n).len() ==> digits(n)[i] != ' ',
    decreases n,
{
    if n >= 10 {
        lemma_digits_have_no_space(n / 10);
    }
}

/// The entry of a discovery file can be told apart at its first space: before it stands the
/// port, behind it the process.
pub proof fn law_port_entry_names_port_and_process(port: nat, pid: nat)
    ensures
        ({
            let entry = port_entry_text(port, pid);
            let at = digits(port).len() as int;
            &&& entry[at] == ' '
            &&& forall|i: int| 0 <= i < at ==> entry[i] != ' '
            &&& entry.take(at) == digits(port)
            &&& entry.skip(at + 1) == digits(pid)
        }),
{
    reveal_strlit(" ");
    lemma_digits_have_no_space(port);
    let entry = port_entry_text(port, pid);
    let at = digits(port).len() as int;
    assert(entry.take(at) =~= digits(port));
    assert(entry.skip(at + 1) =~= digits(pid));
}

/// An entry is removed by the process that published it, and by no other.
pub proof fn law_entries_belong_to_their_process(port: nat, pid: nat, other: nat)
    ensures
        names_process(port_entry_text(port, pid), other) <==> other == pid,
{
    let entry = port_entry_text(port, pid);
    let at = digits(port).len() as int;
    reveal_strlit(" ");
    law_port_entry_names_port_and_process(port, pid);
    lemma_find_from(entry, " "@, 0);
    assert(entry.subrange(at, at + 1) =~= " "@);
    assert(occurs_at(entry, " "@, at));
    let found = find_from(entry, " "@, 0)->0;
    assert(entry.subrange(found, found + 1)[0] == ' ');
    assert(found == at);
    law_decimal_round_trip(pid);
    law_decimal_round_trip(other);
}

} // verus!
