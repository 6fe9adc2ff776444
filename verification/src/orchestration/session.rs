//! The order in which a session is put together, and what it consists of.

use crate::context::system_prompt::{compose_system_prompt, system_prompt};
use crate::json::Json;
use crate::mcp_layers::{names_of_tools, McpHook, McpProvisionState, McpTool};
use crate::orchestration::resources::{session_slot, SessionExecutionContext, SessionMcpResources};
use crate::session_tree::{metadata_id, session_id_in};
use crate::text::{
    copy_texts, decimal_size, digits, join, joined, lemma_texts_empty, lemma_texts_push, opt_text,
    owned, texts,
};
use vstd::prelude::*;

verus! {

broadcast use {lemma_texts_push, lemma_texts_empty};

// The sources of notifications.

/// A source of notifications of a session.
#[derive(Debug)]
pub enum NotificationHook {
    Mcp(McpHook),
    Cron,
    /// The check of the dynamic triggers of a directory.
    DynamicTriggers { cwd: String },
}

/// Whether a list holds each source once: those of the MCP servers, the cron jobs, and the
/// dynamic triggers, in this order.
pub open spec fn are_registrations(
    v: Seq<NotificationHook>,
    mcp: Seq<McpHook>,
    cwd: Seq<char>,
) -> bool {
    let n = mcp.len() as int;
    &&& v.len() == n + 2
    &&& forall|i: int| 0 <= i < n ==> #[trigger] v[i] == NotificationHook::Mcp(mcp[i])
    &&& v[n] is Cron
    &&& v[n + 1] matches NotificationHook::DynamicTriggers { cwd: dir } && dir@ == cwd
}

/// The sources that are registered for a session, each once: one that is registered twice
/// would fail, or fire twice.
pub fn register_notification_hooks(mcp_notification_hooks: Vec<McpHook>, cwd: &str) -> (r: Vec<
    NotificationHook,
>)
    ensures
        are_registrations(r@, mcp_notification_hooks@, cwd@),
{
    let ghost all = mcp_notification_hooks@;
    let mut pending = mcp_notification_hooks;
    let end: usize = pending.len();
    let mut r: Vec<NotificationHook> = Vec::new();
    let mut i: usize = 0;
    while i < end
        invariant
            i <= end,
            end == all.len(),
            pending@ == all.skip(i as int),
            r@.len() == i,
            forall|j: int| 0 <= j < i ==> #[trigger] r@[j] == NotificationHook::Mcp(all[j]),
        decreases end - i,
    {
        let hook = pending.remove(0);
        assert(hook == all[i as int]);
        assert(pending@ =~= all.skip(i + 1));
        r.push(NotificationHook::Mcp(hook));
        i += 1;
    }
    r.push(NotificationHook::Cron);
    r.push(NotificationHook::DynamicTriggers { cwd: owned(cwd) });
    r
}

// What a session consists of.

/// What a session consists of, as far as it is decided here.
#[derive(Debug)]
pub struct SessionAssembly {
    /// The names of the tools, those of the MCP servers after the daemon's own.
    pub tool_names: Vec<String>,
    pub system_prompt: String,
    pub registrations: Vec<NotificationHook>,
    pub inject_summary: Vec<String>,
    pub inject_and_run: Vec<String>,
}

/// The tools that a session reads of its MCP servers.
pub open spec fn session_mcp_tools(mcp: SessionMcpResources, shared: McpProvisionState) -> Seq<McpTool> {
    match session_slot(mcp, shared) {
        Some(s) => s.tools@,
        None => mcp.tools@,
    }
}

/// The hooks that a build of a session takes of its MCP servers.
pub open spec fn session_mcp_hooks(mcp: SessionMcpResources, shared: McpProvisionState) -> Seq<McpHook> {
    match session_slot(mcp, shared) {
        Some(s) => s.hooks@,
        None => mcp.notification_hooks@,
    }
}

/// The names of the tools of a session: the merged ones where extensions add theirs.
pub open spec fn session_tool_names(
    base: Seq<Seq<char>>,
    mcp: Seq<McpTool>,
    merged: Option<Vec<String>>,
) -> Seq<Seq<char>> {
    match merged {
        Some(names) => texts(names@),
        None => base + names_of_tools(mcp),
    }
}

fn add_tool_names(names: &mut Vec<String>, tools: &Vec<McpTool>)
    ensures
        texts(final(names)@) == texts(old(names)@) + names_of_tools(tools@),
{
    let ghost before = texts(names@);
    let ghost all = names_of_tools(tools@);
    let mut i: usize = 0;
    assert(before + all.take(0) =~= before);
    while i < tools.len()
        invariant
            i <= tools@.len(),
            all == names_of_tools(tools@),
            texts(names@) == before + all.take(i as int),
        decreases tools@.len() - i,
    {
        names.push(tools[i].name.clone());
        assert(before + all.take(i + 1) =~= (before + all.take(i as int)).push(all[i as int]));
        i += 1;
    }
    assert(all.take(i as int) =~= all);
}

/// The tools that a session has before extensions add theirs.
pub fn tools_before_extensions(base_tools: &Vec<String>, mcp_tools: &Vec<McpTool>) -> (r: Vec<String>)
    ensures
        texts(r@) == texts(base_tools@) + names_of_tools(mcp_tools@),
{
    let mut names = copy_texts(base_tools);
    add_tool_names(&mut names, mcp_tools);
    names
}

/// Puts a session together from its context, the tools of the daemon, and the tools with
/// those of the extensions where there is an engine for them. What the session takes of the
/// MCP servers is gone from the context where it is there for one build alone.
pub fn assemble_session(
    ctx: &mut SessionExecutionContext,
    base_tools: &Vec<String>,
    merged_tools: &Option<Vec<String>>,
    shared: &McpProvisionState,
) -> (r: SessionAssembly)
    ensures
        texts(r.tool_names@) == session_tool_names(
            texts(base_tools@),
            session_mcp_tools(old(ctx).mcp, *shared),
            *merged_tools,
        ),
        r.system_prompt@ == system_prompt(
            old(ctx).cwd@,
            old(ctx).resources.memory_block@,
            texts(r.tool_names@),
            None,
            None,
        ),
        are_registrations(
            r.registrations@,
            session_mcp_hooks(old(ctx).mcp, *shared),
            old(ctx).cwd@,
        ),
        match session_slot(old(ctx).mcp, *shared) {
            Some(s) => {
                &&& texts(r.inject_summary@) == texts(s.inject_summary@)
                &&& texts(r.inject_and_run@) == texts(s.inject_and_run@)
                &&& *final(ctx) == *old(ctx)
            },
            None => {
                &&& texts(r.inject_summary@) == texts(old(ctx).mcp.inject_summary_servers@)
                &&& texts(r.inject_and_run@) == texts(old(ctx).mcp.inject_and_run_servers@)
                &&& final(ctx).mcp.notification_hooks@ == Seq::<McpHook>::empty()
                &&& *final(ctx) == (SessionExecutionContext {
                    mcp: SessionMcpResources {
                        notification_hooks: final(ctx).mcp.notification_hooks,
                        ..old(ctx).mcp
                    },
                    ..*old(ctx)
                })
            },
        },
{
    let inputs = ctx.mcp.build_inputs(shared);
    let tool_names = match merged_tools {
        Some(names) => copy_texts(names),
        None => tools_before_extensions(base_tools, &inputs.tools),
    };
    let prompt = compose_system_prompt(
        ctx.cwd.as_str(),
        ctx.resources.memory_block.as_str(),
        &tool_names,
        None,
        None,
    );
    SessionAssembly {
        tool_names,
        system_prompt: prompt,
        registrations: register_notification_hooks(inputs.hooks, ctx.cwd.as_str()),
        inject_summary: inputs.inject_summary,
        inject_and_run: inputs.inject_and_run,
    }
}

/// The key that a session sends to a provider: its own, else the one that an extension has
/// for the provider.
pub fn session_api_key(own: Option<String>, of_extensions: Option<String>) -> (r: Option<String>)
    ensures
        r == (if own is Some {
            own
        } else {
            of_extensions
        }),
{
    match own {
        Some(key) => Some(key),
        None => of_extensions,
    }
}

// The steps of a build.

/// Where the build of a session stands.
#[derive(Clone, Copy, Debug, PartialEq, Eq, Structural)]
pub enum BuildStage {
    Opening,
    Reading,
    Loading,
    Installing,
    Assembling,
    Rehydrating,
    Starting,
    Done,
}

/// The build of a session.
#[derive(Debug)]
pub struct SessionBuild {
    /// The identifier, or the beginning of one, that the session was asked for by.
    pub requested: String,
    /// Whether the session is installed in the process and its runs are restored.
    pub install: bool,
    /// Whether the transcript is read back.
    pub rehydrate: bool,
    /// The identifier of the session, once it is known.
    pub session_id: String,
    pub stage: BuildStage,
}

/// What has come back from outside.
#[derive(Debug)]
pub enum BuildEvent {
    Opened(Result<(), String>),
    MetadataRead(Result<Json, String>),
    /// The runs that were under way are read from storage.
    RunsLoaded(Result<(), String>),
    /// The runs that the process did not have yet, by their identifiers.
    Installed { restored: Vec<String> },
    Assembled,
    Rehydrated(Result<(), String>),
    ExtensionsStarted,
}

/// What is to be done next.
#[derive(Debug)]
pub enum BuildAction {
    ReadMetadata,
    LoadRuns,
    Install,
    Assemble,
    Rehydrate,
    StartExtensions,
    Finish,
    Fail(String),
    /// The event was not awaited.
    Wait,
}

pub open spec fn restored_text(session_id: Seq<char>, restored: Seq<Seq<char>>) -> Seq<char> {
    "session "@ + session_id + ": restored "@ + digits(restored.len())
        + " in-flight DAG run(s): "@ + joined(restored, ", "@)
}

/// The line to log about the runs that were restored, where there were some.
pub fn restored_line(session_id: &str, restored: &Vec<String>) -> (r: Option<String>)
    ensures
        match r {
            Some(line) => restored@.len() > 0 && line@ == restored_text(
                session_id@,
                texts(restored@),
            ),
            None => restored@.len() == 0,
        },
{
    if restored.len() == 0 {
        return None;
    }
    assert(texts(restored@).len() == restored@.len());
    let mut line = owned("session ");
    line.push_str(session_id);
    line.push_str(": restored ");
    line.push_str(decimal_size(restored.len()).as_str());
    line.push_str(" in-flight DAG run(s): ");
    line.push_str(join(restored, ", ").as_str());
    Some(line)
}

/// Whether an action ends a build with a message.
pub open spec fn fails_with(a: BuildAction, message: Seq<char>) -> bool {
    a matches BuildAction::Fail(m) && m@ == message
}

/// What a build does after its session is put together.
pub open spec fn after_assembly(rehydrate: bool, a: BuildAction, stage: BuildStage) -> bool {
    if rehydrate {
        a is Rehydrate && stage == BuildStage::Rehydrating
    } else {
        a is StartExtensions && stage == BuildStage::Starting
    }
}

/// One step of a build: from where it stands, and what has come back, to what is done next.
pub open spec fn build_step(
    b: SessionBuild,
    event: BuildEvent,
    action: BuildAction,
    log: Option<Seq<char>>,
    id: Seq<char>,
    stage: BuildStage,
) -> bool {
    match (b.stage, event) {
        (BuildStage::Opening, BuildEvent::Opened(result)) => log is None && id == b.session_id@
            && match result {
            Ok(_) => action is ReadMetadata && stage == BuildStage::Reading,
            Err(_) => fails_with(action, "open session "@ + b.requested@) && stage
                == BuildStage::Done,
        },
        (BuildStage::Reading, BuildEvent::MetadataRead(result)) => log is None && match result {
            Ok(meta) => id == metadata_id(meta@) && if b.install {
                action is LoadRuns && stage == BuildStage::Loading
            } else {
                action is Assemble && stage == BuildStage::Assembling
            },
            Err(e) => id == b.session_id@ && fails_with(action, e@) && stage == BuildStage::Done,
        },
        (BuildStage::Loading, BuildEvent::RunsLoaded(result)) => log is None && id == b.session_id@
            && match result {
            Ok(_) => action is Install && stage == BuildStage::Installing,
            Err(e) => fails_with(action, e@) && stage == BuildStage::Done,
        },
        (BuildStage::Installing, BuildEvent::Installed { restored }) => {
            &&& id == b.session_id@
            &&& action is Assemble
            &&& stage == BuildStage::Assembling
            &&& log == (if restored@.len() > 0 {
                Some(restored_text(b.session_id@, texts(restored@)))
            } else {
                None
            })
        },
        (BuildStage::Assembling, BuildEvent::Assembled) => log is None && id == b.session_id@
            && after_assembly(b.rehydrate, action, stage),
        (BuildStage::Rehydrating, BuildEvent::Rehydrated(result)) => log is None && id
            == b.session_id@ && match result {
            Ok(_) => action is StartExtensions && stage == BuildStage::Starting,
            Err(_) => fails_with(action, "rehydrate session "@ + b.session_id@) && stage
                == BuildStage::Done,
        },
        (BuildStage::Starting, BuildEvent::ExtensionsStarted) => log is None && id == b.session_id@
            && action is Finish && stage == BuildStage::Done,
        _ => log is None && id == b.session_id@ && action is Wait && stage == b.stage,
    }
}

fn fail_about(prefix: &str, what: &str) -> (r: BuildAction)
    ensures
        fails_with(r, prefix@ + what@),
{
    let mut m = owned(prefix);
    m.push_str(what);
    BuildAction::Fail(m)
}

impl SessionBuild {
    /// The build of a session that is looked up by its identifier or the beginning of it. Its
    /// runs are restored, and its transcript is read back.
    pub fn build(id: &str) -> (r: SessionBuild)
        ensures
            r.requested@ == id@,
            r.install,
            r.rehydrate,
            r.session_id@ == ""@,
            r.stage == BuildStage::Opening,
    {
        SessionBuild {
            requested: owned(id),
            install: true,
            rehydrate: true,
            session_id: owned(""),
            stage: BuildStage::Opening,
        }
    }

    /// The build of a session that is open already.
    pub fn build_opened(rehydrate: bool) -> (r: SessionBuild)
        ensures
            r.requested@ == ""@,
            r.install,
            r.rehydrate == rehydrate,
            r.session_id@ == ""@,
            r.stage == BuildStage::Reading,
    {
        SessionBuild {
            requested: owned(""),
            install: true,
            rehydrate,
            session_id: owned(""),
            stage: BuildStage::Reading,
        }
    }

    /// The build of a session that is open already, beside the process: nothing is installed
    /// and no run is restored.
    pub fn build_opened_detached(rehydrate: bool) -> (r: SessionBuild)
        ensures
            r.requested@ == ""@,
            !r.install,
            r.rehydrate == rehydrate,
            r.session_id@ == ""@,
            r.stage == BuildStage::Reading,
    {
        SessionBuild {
            requested: owned(""),
            install: false,
            rehydrate,
            session_id: owned(""),
            stage: BuildStage::Reading,
        }
    }

    /// Takes what has come back from outside, and says what to do next and what to log. The
    /// caller keeps the cause of a failure beside the message.
    pub fn step(&mut self, event: &BuildEvent) -> (r: (BuildAction, Option<String>))
        ensures
            final(self).requested == old(self).requested,
            final(self).install == old(self).install,
            final(self).rehydrate == old(self).rehydrate,
            build_step(
                *old(self),
                *event,
                r.0,
                opt_text(r.1),
                final(self).session_id@,
                final(self).stage,
            ),
    {
        match (self.stage, event) {
            (BuildStage::Opening, BuildEvent::Opened(result)) => match result {
                Ok(_) => {
                    self.stage = BuildStage::Reading;
                    (BuildAction::ReadMetadata, None)
                },
                Err(_) => {
                    self.stage = BuildStage::Done;
                    (fail_about("open session ", self.requested.as_str()), None)
                },
            },
            (BuildStage::Reading, BuildEvent::MetadataRead(result)) => match result {
                Ok(meta) => {
                    self.session_id = session_id_in(meta);
                    if self.install {
                        self.stage = BuildStage::Loading;
                        (BuildAction::LoadRuns, None)
                    } else {
                        self.stage = BuildStage::Assembling;
                        (BuildAction::Assemble, None)
                    }
                },
                Err(e) => {
                    self.stage = BuildStage::Done;
                    (BuildAction::Fail(e.clone()), None)
                },
            },
            (BuildStage::Loading, BuildEvent::RunsLoaded(result)) => match result {
                Ok(_) => {
                    self.stage = BuildStage::Installing;
                    (BuildAction::Install, None)
                },
                Err(e) => {
                    self.stage = BuildStage::Done;
                    (BuildAction::Fail(e.clone()), None)
                },
            },
            (BuildStage::Installing, BuildEvent::Installed { restored }) => {
                self.stage = BuildStage::Assembling;
                (BuildAction::Assemble, restored_line(self.session_id.as_str(), restored))
            },
            (BuildStage::Assembling, BuildEvent::Assembled) => if self.rehydrate {
                self.stage = BuildStage::Rehydrating;
                (BuildAction::Rehydrate, None)
            } else {
                self.stage = BuildStage::Starting;
                (BuildAction::StartExtensions, None)
            },
            (BuildStage::Rehydrating, BuildEvent::Rehydrated(result)) => match result {
                Ok(_) => {
                    self.stage = BuildStage::Starting;
                    (BuildAction::StartExtensions, None)
                },
                Err(_) => {
                    self.stage = BuildStage::Done;
                    (fail_about("rehydrate session ", self.session_id.as_str()), None)
                },
            },
            (BuildStage::Starting, BuildEvent::ExtensionsStarted) => {
                self.stage = BuildStage::Done;
                (BuildAction::Finish, None)
            },
            _ => (BuildAction::Wait, None),
        }
    }
}

/// What is left of a session once it is built.
#[derive(Debug)]
pub struct SessionRuntime {
    pub session_id: String,
    pub cwd: String,
    pub tool_names: Vec<String>,
    /// Whether some hook may run.
    pub hooks_active: bool,
}

/// The session that a finished build leaves.
pub fn session_runtime(
    build: &SessionBuild,
    ctx: &SessionExecutionContext,
    assembly: &SessionAssembly,
) -> (r: SessionRuntime)
    ensures
        r.session_id@ == build.session_id@,
        r.cwd@ == ctx.cwd@,
        texts(r.tool_names@) == texts(assembly.tool_names@),
        r.hooks_active == (ctx.hooks.loaded.runner.rules@.len() > 0),
{
    SessionRuntime {
        session_id: build.session_id.clone(),
        cwd: ctx.cwd.clone(),
        tool_names: copy_texts(&assembly.tool_names),
        hooks_active: !ctx.hooks.loaded.runner.is_empty(),
    }
}

// Laws.

/// How far a build is from its end.
pub open spec fn steps_left(stage: BuildStage) -> nat {
    match stage {
        BuildStage::Opening => 7,
        BuildStage::Reading => 6,
        BuildStage::Loading => 5,
        BuildStage::Installing => 4,
        BuildStage::Assembling => 3,
        BuildStage::Rehydrating => 2,
        BuildStage::Starting => 1,
        BuildStage::Done => 0,
    }
}

/// Every event that a build awaits brings it nearer to its end, and it ends with its session
/// or with one failure.
pub proof fn law_builds_end(
    b: SessionBuild,
    event: BuildEvent,
    action: BuildAction,
    log: Option<Seq<char>>,
    id: Seq<char>,
    stage: BuildStage,
)
    requires
        build_step(b, event, action, log, id, stage),
        action !is Wait,
    ensures
        steps_left(stage) < steps_left(b.stage),
        stage == BuildStage::Done <==> action is Finish || action is Fail,
{
}

/// Nothing is installed in the process before everything that is read from storage has been
/// read: a build that fails there leaves the process as it was.
pub proof fn law_nothing_is_installed_before_all_is_read(
    b: SessionBuild,
    event: BuildEvent,
    action: BuildAction,
    log: Option<Seq<char>>,
    id: Seq<char>,
    stage: BuildStage,
)
    requires
        build_step(b, event, action, log, id, stage),
        action is Install,
    ensures
        b.stage == BuildStage::Loading,
        event matches BuildEvent::RunsLoaded(result) && result is Ok,
{
}

/// A build beside the process installs nothing and restores no run: from where it begins, no
/// step leads it to the stages that do.
pub proof fn law_detached_builds_install_nothing(
    b: SessionBuild,
    event: BuildEvent,
    action: BuildAction,
    log: Option<Seq<char>>,
    id: Seq<char>,
    stage: BuildStage,
)
    requires
        build_step(b, event, action, log, id, stage),
        !b.install,
        b.stage != BuildStage::Loading && b.stage != BuildStage::Installing,
    ensures
        action !is LoadRuns && action !is Install,
        stage != BuildStage::Loading && stage != BuildStage::Installing,
{
}

/// Each source of notifications is registered once: two places of a list never hold the hook
/// of one MCP server, and one place each holds the cron jobs and the dynamic triggers.
pub proof fn law_sources_are_registered_once(
    v: Seq<NotificationHook>,
    mcp: Seq<McpHook>,
    cwd: Seq<char>,
    i: int,
    j: int,
)
    requires
        are_registrations(v, mcp, cwd),
        mcp.no_duplicates(),
        0 <= i < j < v.len(),
    ensures
        v[i] != v[j],
        v[i] is Cron ==> v[j] !is Cron,
        v[i] is DynamicTriggers ==> v[j] !is DynamicTriggers,
{
}

/// A build goes through its steps in order: the session is opened, its metadata are read, its
/// runs are loaded and it is installed where it is to be, it is assembled, rehydrated where that
/// is asked for, and its extensions are started last.
pub proof fn law_builds_go_in_order(
    b: SessionBuild,
    event: BuildEvent,
    action: BuildAction,
    log: Option<Seq<char>>,
    id: Seq<char>,
    stage: BuildStage,
)
    requires
        build_step(b, event, action, log, id, stage),
    ensures
        action is ReadMetadata ==> b.stage == BuildStage::Opening,
        action is LoadRuns ==> b.stage == BuildStage::Reading && b.install,
        action is Assemble ==> b.stage == BuildStage::Installing || (b.stage == BuildStage::Reading
            && !b.install),
        action is Rehydrate ==> b.stage == BuildStage::Assembling && b.rehydrate,
        action is StartExtensions ==> b.stage == BuildStage::Rehydrating || (b.stage
            == BuildStage::Assembling && !b.rehydrate),
        action is Finish ==> b.stage == BuildStage::Starting && event is ExtensionsStarted,
        b.stage == BuildStage::Reading ==> (event matches BuildEvent::MetadataRead(Ok(meta)) ==> id
            == metadata_id(meta@)),
        !(b.stage == BuildStage::Reading) ==> id == b.session_id@,
        b.stage == BuildStage::Opening ==> (event matches BuildEvent::Opened(Err(_)) ==> (
        action matches BuildAction::Fail(m) && m@ == "open session "@ + b.requested@)),
        b.stage == BuildStage::Rehydrating ==> (event matches BuildEvent::Rehydrated(Err(_)) ==> (
        action matches BuildAction::Fail(m) && m@ == "rehydrate session "@ + b.session_id@)),
        b.stage == BuildStage::Loading ==> (event matches BuildEvent::RunsLoaded(Err(e)) ==> (
        action matches BuildAction::Fail(m) && m@ == e@)),
{
}

/// The tools of a session are its own before those of its servers, unless extensions have put
/// them together anew.
pub proof fn law_own_tools_stand_first(
    base: Seq<Seq<char>>,
    mcp: Seq<McpTool>,
    merged: Option<Vec<String>>,
    i: int,
)
    ensures
        merged is None && 0 <= i < base.len() ==> session_tool_names(base, mcp, merged)[i]
            == base[i],
        merged is None && 0 <= i < mcp.len() ==> session_tool_names(base, mcp, merged)[base.len()
            + i] == mcp[i].name@,
        merged matches Some(names) ==> session_tool_names(base, mcp, merged) == texts(names@),
{
}

} // verus!
