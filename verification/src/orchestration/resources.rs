//! What the sessions of a daemon are given: skills and templates, MCP servers, hooks, and
//! the engine of the extensions.

use crate::builtin_skills::{
    available_names, distinct_names, is_builtin_skill, last_named,
    law_user_and_project_skills_shadow_builtins, merge_with_user_project, merged_skills, requested,
    resolve_builtins, unknown_config_text, unknown_in, UnknownBuiltinError,
};
use crate::commands::misc::PromptTemplate;
use crate::executor::ExecutorKind;
use crate::hooks::{
    executor_notes, load_with, loaded_notes, loaded_rules, rule_views, runs_for, HookFiles,
    HookPaths, HookSession, LoadedHooks,
};
use crate::mcp_layers::{
    all_hooks, all_tools, connect_servers, connected_layer, connected_names, connected_views,
    failures_in, is_flat, merge_mcp_layers, merged_layers, names_of_tools, pair_views, state_layer,
    ConnectResult, ConnectedMcpServer, LayerView, LoadedMcp, McpHook, McpLayer, McpProvisionState,
    McpTool,
};
use crate::mcp_loader::{config_names, server_views, ServerConfig, ServerView};
use crate::model::Model;
use crate::orchestration::startup::DaemonPaths;
use crate::order::{deduped, has_text, sorted_texts};
use crate::paths::{join_path, joined_path};
use crate::skill::{copy_skills, Skill};
use crate::skill_overrides::{
    all_switched, law_no_switches_change_nothing, switched, switched_skills, SkillOverride,
};
use crate::text::{copy_texts, lemma_texts_empty, lemma_texts_push, owned, texts};
use vstd::prelude::*;

verus! {

broadcast use {lemma_texts_push, lemma_texts_empty};

// Skills and templates.

/// What a scan of the disk found.
#[derive(Debug)]
pub struct LocalScan {
    pub skills: Vec<Skill>,
    pub templates: Vec<PromptTemplate>,
    pub diagnostics: Vec<String>,
}

/// The skills and templates of the sessions in a directory.
#[derive(Debug)]
pub struct SessionProjectResources {
    pub memory_block: String,
    pub skills: Vec<Skill>,
    pub templates: Vec<PromptTemplate>,
    pub memory_dir: String,
    /// The built-in skills that are enabled, to merge again on a reload.
    pub builtins: Vec<Skill>,
    pub load_local_sources: bool,
    /// The skills that the controller provides.
    pub provisioned_skills: Vec<Skill>,
    /// The templates that the controller provides.
    pub provisioned_templates: Vec<PromptTemplate>,
    /// What is told at the start of the built-in skills that the configuration asks for.
    pub diagnostics: Vec<String>,
}

/// The switches that count: those of the user where the daemon reads the disk, else none.
pub open spec fn local_overrides(
    load_local_sources: bool,
    overrides: Seq<SkillOverride>,
) -> Seq<SkillOverride> {
    if load_local_sources {
        overrides
    } else {
        Seq::empty()
    }
}

/// The skills after a reload: those of the disk where the daemon reads it, as the user has
/// switched them, else those that the controller provides.
pub open spec fn reloaded_skills(
    r: SessionProjectResources,
    scanned: Seq<Skill>,
    overrides: Seq<SkillOverride>,
) -> Seq<Skill> {
    all_switched(
        merged_skills(
            r.builtins@,
            if r.load_local_sources {
                scanned
            } else {
                r.provisioned_skills@
            },
        ),
        local_overrides(r.load_local_sources, overrides),
    )
}

fn apply_local(
    load_local_sources: bool,
    overrides: &Vec<SkillOverride>,
    skills: Vec<Skill>,
) -> (r: Vec<Skill>)
    ensures
        r@ == all_switched(skills@, local_overrides(load_local_sources, overrides@)),
{
    if load_local_sources {
        switched_skills(skills, overrides)
    } else {
        proof {
            law_no_switches_change_nothing(skills@);
        }
        skills
    }
}

impl SessionProjectResources {
    /// The resources of a directory. What the scan found and what the user has switched count
    /// only where the daemon reads the disk itself. The call fails exactly when the command line names a built-in skill
    /// that does not exist; one that the configuration names is told of.
    pub fn load(
        base: &str,
        memory_block: String,
        cli_builtin_skills: &Vec<String>,
        config_builtin_skills: &Vec<String>,
        load_local_sources: bool,
        scan: LocalScan,
        overrides: &Vec<SkillOverride>,
    ) -> (r: Result<SessionProjectResources, UnknownBuiltinError>)
        ensures
            ({
                let cli = texts(cli_builtin_skills@);
                let config = texts(config_builtin_skills@);
                let bad_cli = unknown_in(cli, available_names());
                match r {
                    Err(e) => {
                        &&& bad_cli.len() > 0
                        &&& texts(e.unknown@) == deduped(sorted_texts(bad_cli))
                        &&& texts(e.available@) == available_names()
                    },
                    Ok(s) => {
                        let enabled = requested(available_names(), cli, config);
                        let bad_config = unknown_in(config, available_names());
                        &&& bad_cli.len() == 0
                        &&& texts(s.diagnostics@) == (if bad_config.len() == 0 {
                            Seq::empty()
                        } else {
                            seq![unknown_config_text(deduped(sorted_texts(bad_config)))]
                        })
                        &&& s.builtins@.len() == enabled.len()
                        &&& forall|i: int|
                            0 <= i < enabled.len() ==> is_builtin_skill(
                                #[trigger] s.builtins@[i],
                                enabled[i],
                            )
                        &&& s.skills@ == all_switched(
                            merged_skills(
                                s.builtins@,
                                if load_local_sources {
                                    scan.skills@
                                } else {
                                    Seq::empty()
                                },
                            ),
                            local_overrides(load_local_sources, overrides@),
                        )
                        &&& s.templates@ == (if load_local_sources {
                            scan.templates@
                        } else {
                            Seq::empty()
                        })
                        &&& s.memory_block == memory_block
                        &&& s.memory_dir@ == joined_path(base@, "memory"@)
                        &&& s.load_local_sources == load_local_sources
                        &&& s.provisioned_skills@ == Seq::<Skill>::empty()
                        &&& s.provisioned_templates@ == Seq::<PromptTemplate>::empty()
                    },
                }
            }),
    {
        let resolved = match resolve_builtins(cli_builtin_skills, config_builtin_skills) {
            Ok(resolved) => resolved,
            Err(e) => {
                return Err(e);
            },
        };
        let builtins = resolved.skills;
        let (scanned, templates) = if load_local_sources {
            (scan.skills, scan.templates)
        } else {
            (Vec::new(), Vec::new())
        };
        let merged = merge_with_user_project(copy_skills(&builtins), &scanned);
        let skills = apply_local(load_local_sources, overrides, merged);
        Ok(
            SessionProjectResources {
                memory_block,
                skills,
                templates,
                memory_dir: join_path(base, "memory"),
                builtins,
                load_local_sources,
                provisioned_skills: Vec::new(),
                provisioned_templates: Vec::new(),
                diagnostics: resolved.diagnostics,
            },
        )
    }

    /// The skills after a reload, and what was noted. A daemon that a controller provides for
    /// keeps what it was provided with.
    pub fn reload(&self, scan: &LocalScan, overrides: &Vec<SkillOverride>) -> (r: (
        Vec<Skill>,
        Vec<String>,
    ))
        ensures
            r.0@ == reloaded_skills(*self, scan.skills@, overrides@),
            texts(r.1@) == (if self.load_local_sources {
                texts(scan.diagnostics@)
            } else {
                Seq::empty()
            }),
    {
        let builtins = copy_skills(&self.builtins);
        let (merged, notes) = if self.load_local_sources {
            (merge_with_user_project(builtins, &scan.skills), copy_texts(&scan.diagnostics))
        } else {
            (merge_with_user_project(builtins, &self.provisioned_skills), Vec::new())
        };
        (apply_local(self.load_local_sources, overrides, merged), notes)
    }
}

// MCP servers.

/// The servers that one session has asked for.
#[derive(Debug)]
pub struct SessionMcpOverlay {
    /// What was asked for, in that order.
    pub configs: Vec<ServerConfig>,
    /// The daemon's servers with those of the session in the place of their namesakes.
    pub slot: McpProvisionState,
    /// Whether the daemon's servers came from a slot, which may be filled anew, rather than
    /// from the configuration files.
    pub from_global_slot: bool,
}

/// The MCP servers of a session.
#[derive(Debug)]
pub struct SessionMcpResources {
    pub tools: Vec<McpTool>,
    /// The hooks that no build has registered yet. The first build takes them all.
    pub notification_hooks: Vec<McpHook>,
    pub inject_summary_servers: Vec<String>,
    pub inject_and_run_servers: Vec<String>,
    pub server_count: usize,
    pub server_names: Vec<String>,
    pub tool_names: Vec<String>,
    pub notification_hook_count: usize,
    /// Whether the servers are those that the controller provides, which all sessions share.
    pub provisioned: bool,
    pub server_errors: Vec<(String, String)>,
    /// The servers of the configuration files.
    pub daemon_configs: Vec<ServerConfig>,
    pub daemon_servers: Vec<ConnectedMcpServer>,
    pub overlay: Option<SessionMcpOverlay>,
}

/// What is told of the MCP servers of a session.
#[derive(Debug)]
pub struct SessionMcpCapabilities {
    pub servers: usize,
    pub tools: usize,
    pub notification_hooks: usize,
    pub server_names: Vec<String>,
    pub tool_names: Vec<String>,
    pub errors: Vec<(String, String)>,
}

/// The slot that a session reads: its own, else the one that all sessions share where the
/// controller provides the servers.
pub open spec fn session_slot(r: SessionMcpResources, shared: McpProvisionState) -> Option<
    McpProvisionState,
> {
    match r.overlay {
        Some(o) => Some(o.slot),
        None => if r.provisioned {
            Some(shared)
        } else {
            None
        },
    }
}

/// The layer that a session's servers are laid over.
pub open spec fn daemon_layer_of(r: SessionMcpResources, shared: McpProvisionState) -> LayerView {
    match session_slot(r, shared) {
        Some(s) => state_layer(s),
        None => LayerView {
            servers: connected_views(r.daemon_servers@),
            inject_summary: texts(r.inject_summary_servers@),
            inject_and_run: texts(r.inject_and_run_servers@),
            errors: pair_views(r.server_errors@),
        },
    }
}

pub open spec fn daemon_configs_of(r: SessionMcpResources, shared: McpProvisionState) -> Seq<
    ServerView,
> {
    match session_slot(r, shared) {
        Some(s) => server_views(s.configs@),
        None => server_views(r.daemon_configs@),
    }
}

/// The servers whose names are not among the given ones, of the first `n`.
pub open spec fn configs_kept(v: Seq<ServerView>, names: Seq<Seq<char>>, n: int) -> Seq<ServerView>
    decreases n,
{
    if n <= 0 || n > v.len() {
        Seq::empty()
    } else if names.contains(v[n - 1].name) {
        configs_kept(v, names, n - 1)
    } else {
        configs_kept(v, names, n - 1).push(v[n - 1])
    }
}

/// Whether resources hold what was loaded from the configuration files.
pub open spec fn holds_layer(r: SessionMcpResources, layer: LayerView) -> bool {
    &&& r.tools@ == all_tools(layer.servers, layer.servers.len() as int)
    &&& texts(r.inject_summary_servers@) == layer.inject_summary
    &&& texts(r.inject_and_run_servers@) == layer.inject_and_run
    &&& r.server_count == layer.servers.len()
    &&& texts(r.server_names@) == connected_names(layer.servers)
    &&& texts(r.tool_names@) == names_of_tools(r.tools@)
    &&& r.notification_hook_count == layer.servers.len()
    &&& pair_views(r.server_errors@) == layer.errors
    &&& connected_views(r.daemon_servers@) == layer.servers
}

fn names_of_configs(configs: &Vec<ServerConfig>) -> (r: Vec<String>)
    ensures
        texts(r@) == config_names(server_views(configs@), configs@.len() as int),
{
    let mut r: Vec<String> = Vec::new();
    let ghost views = server_views(configs@);
    let mut i: usize = 0;
    while i < configs.len()
        invariant
            i <= configs@.len(),
            views == server_views(configs@),
            texts(r@) == config_names(views, i as int),
        decreases configs@.len() - i,
    {
        r.push(configs[i].name.clone());
        i += 1;
    }
    r
}

fn append_configs(r: &mut Vec<ServerConfig>, v: &Vec<ServerConfig>, excluded: &Vec<String>)
    ensures
        server_views(final(r)@) == server_views(old(r)@) + configs_kept(
            server_views(v@),
            texts(excluded@),
            v@.len() as int,
        ),
{
    let ghost before = server_views(r@);
    let ghost all = server_views(v@);
    let ghost out = texts(excluded@);
    let mut i: usize = 0;
    assert(before + configs_kept(all, out, 0) =~= before);
    while i < v.len()
        invariant
            i <= v@.len(),
            all == server_views(v@),
            out == texts(excluded@),
            server_views(r@) == before + configs_kept(all, out, i as int),
        decreases v@.len() - i,
    {
        assert(all[i as int] == v@[i as int]@);
        let ghost kept = configs_kept(all, out, i as int);
        if !has_text(excluded, v[i].name.as_str()) {
            let ghost so_far = server_views(r@);
            let config = v[i].copy();
            r.push(config);
            assert(server_views(r@) =~= so_far.push(v@[i as int]@));
            assert((before + kept).push(v@[i as int]@) =~= before + kept.push(v@[i as int]@));
        }
        i += 1;
    }
}

/// A copy of a list of pairs.
pub fn copy_pairs(v: &Vec<(String, String)>) -> (r: Vec<(String, String)>)
    ensures
        pair_views(r@) == pair_views(v@),
{
    let mut r: Vec<(String, String)> = Vec::new();
    let ghost all = pair_views(v@);
    let mut i: usize = 0;
    assert(pair_views(r@) =~= all.take(0));
    while i < v.len()
        invariant
            i <= v@.len(),
            all == pair_views(v@),
            pair_views(r@) == all.take(i as int),
        decreases v@.len() - i,
    {
        let ghost before = pair_views(r@);
        r.push((v[i].0.clone(), v[i].1.clone()));
        assert(pair_views(r@) =~= before.push(all[i as int]));
        assert(all.take(i + 1) =~= all.take(i as int).push(all[i as int]));
        i += 1;
    }
    assert(all.take(i as int) =~= all);
    r
}

impl SessionMcpResources {
    /// The resources of a daemon that read its configuration files. What was noted is logged
    /// by the caller.
    pub fn from_loaded(loaded: LoadedMcp) -> (r: SessionMcpResources)
        ensures
            holds_layer(r, loaded.layer@),
            r.notification_hooks@ == all_hooks(loaded.layer@.servers),
            !r.provisioned,
            r.daemon_configs == loaded.configs,
            r.overlay is None,
    {
        let layer = loaded.layer;
        let tools = layer.tools();
        let notification_hooks = layer.hooks();
        let tool_names = layer.tool_names();
        let server_names = layer.server_names();
        let count: usize = layer.servers.len();
        assert(layer@.servers.len() == count);
        SessionMcpResources {
            tools,
            notification_hooks,
            inject_summary_servers: layer.inject_summary,
            inject_and_run_servers: layer.inject_and_run,
            server_count: count,
            server_names,
            tool_names,
            notification_hook_count: count,
            provisioned: false,
            server_errors: layer.errors,
            daemon_configs: loaded.configs,
            daemon_servers: layer.servers,
            overlay: None,
        }
    }

    /// The slot that the session reads.
    fn slot<'a>(&'a self, shared: &'a McpProvisionState) -> (r: Option<&'a McpProvisionState>)
        ensures
            match r {
                Some(s) => session_slot(*self, *shared) == Some(*s),
                None => session_slot(*self, *shared) is None,
            },
    {
        match &self.overlay {
            Some(o) => Some(&o.slot),
            None => if self.provisioned {
                Some(shared)
            } else {
                None
            },
        }
    }

    /// The layer that a session's servers are laid over: the slot that the session reads, else
    /// what the configuration files gave.
    pub fn daemon_layer(&self, shared: &McpProvisionState) -> (r: McpLayer)
        ensures
            r@ == daemon_layer_of(*self, *shared),
    {
        match self.slot(shared) {
            Some(s) => s.layer(),
            None => {
                let mut servers: Vec<ConnectedMcpServer> = Vec::new();
                let ghost all = connected_views(self.daemon_servers@);
                let mut i: usize = 0;
                assert(connected_views(servers@) =~= all.take(0));
                while i < self.daemon_servers.len()
                    invariant
                        i <= self.daemon_servers@.len(),
                        all == connected_views(self.daemon_servers@),
                        connected_views(servers@) == all.take(i as int),
                    decreases self.daemon_servers@.len() - i,
                {
                    let ghost before = connected_views(servers@);
                    servers.push(self.daemon_servers[i].copy());
                    assert(connected_views(servers@) =~= before.push(all[i as int]));
                    assert(all.take(i + 1) =~= all.take(i as int).push(all[i as int]));
                    i += 1;
                }
                assert(all.take(i as int) =~= all);
                McpLayer {
                    servers,
                    inject_summary: copy_texts(&self.inject_summary_servers),
                    inject_and_run: copy_texts(&self.inject_and_run_servers),
                    errors: copy_pairs(&self.server_errors),
                }
            },
        }
    }

    /// Lays the servers that a session has asked for over those of the daemon, from what
    /// connecting to them gave, and gives what was noted. A server of the daemon under the
    /// name of one of them is gone for this session, also where the new one failed.
    pub fn install_session_servers(
        &mut self,
        configs: Vec<ServerConfig>,
        results: Vec<ConnectResult>,
        shared: &McpProvisionState,
    ) -> (r: Vec<String>)
        requires
            configs@.len() == results@.len(),
        ensures
            ({
                let views = server_views(configs@);
                let names = config_names(views, views.len() as int);
                let below = daemon_configs_of(*old(self), *shared);
                &&& texts(r@) == failures_in(views, results@, views.len() as int)
                &&& final(self).overlay matches Some(o)
                &&& o.configs == configs
                &&& o.from_global_slot == session_slot(*old(self), *shared) is Some
                &&& state_layer(o.slot) == merged_layers(
                    daemon_layer_of(*old(self), *shared),
                    names,
                    connected_layer(views, results@),
                )
                &&& is_flat(o.slot)
                &&& server_views(o.slot.configs@) == configs_kept(below, names, below.len() as int)
                    + views
                &&& texts(o.slot.registered_labels@) == Seq::<Seq<char>>::empty()
                &&& *final(self) == (SessionMcpResources {
                    overlay: final(self).overlay,
                    ..*old(self)
                })
            }),
    {
        let from_global_slot = self.slot(shared).is_some();
        let daemon = self.daemon_layer(shared);
        let names = names_of_configs(&configs);
        let none: Vec<String> = Vec::new();
        let mut effective: Vec<ServerConfig> = Vec::new();
        assert(server_views(effective@) =~= Seq::empty());
        let ghost below = daemon_configs_of(*self, *shared);
        match self.slot(shared) {
            Some(s) => append_configs(&mut effective, &s.configs, &names),
            None => append_configs(&mut effective, &self.daemon_configs, &names),
        }
        assert(server_views(effective@) =~= configs_kept(below, texts(names@), below.len() as int));
        append_configs(&mut effective, &configs, &none);
        proof {
            lemma_configs_all_kept(server_views(configs@), configs@.len() as int);
            assert(server_views(configs@).take(configs@.len() as int) =~= server_views(configs@));
        }
        let (layer, diagnostics) = connect_servers(&configs, results);
        let merged = merge_mcp_layers(&daemon, &names, &layer);
        let mut slot = McpProvisionState::default();
        slot.replace_connection_result(effective, merged);
        self.overlay = Some(SessionMcpOverlay { configs, slot, from_global_slot });
        diagnostics
    }

    /// What is told of the servers: of the slot that the session reads, else of what the
    /// configuration files gave.
    pub fn capabilities(&self, shared: &McpProvisionState) -> (r: SessionMcpCapabilities)
        ensures
            match session_slot(*self, *shared) {
                Some(s) => {
                    &&& r.servers == s.server_names@.len()
                    &&& r.tools == s.tool_names@.len()
                    &&& r.notification_hooks == s.hooks@.len()
                    &&& texts(r.server_names@) == texts(s.server_names@)
                    &&& texts(r.tool_names@) == texts(s.tool_names@)
                    &&& pair_views(r.errors@) == pair_views(s.errors@)
                },
                None => {
                    &&& r.servers == self.server_count
                    &&& r.tools == self.tool_names@.len()
                    &&& r.notification_hooks == self.notification_hook_count
                    &&& texts(r.server_names@) == texts(self.server_names@)
                    &&& texts(r.tool_names@) == texts(self.tool_names@)
                    &&& pair_views(r.errors@) == pair_views(self.server_errors@)
                },
            },
    {
        match self.slot(shared) {
            Some(s) => SessionMcpCapabilities {
                servers: s.server_names.len(),
                tools: s.tool_names.len(),
                notification_hooks: s.hooks.len(),
                server_names: copy_texts(&s.server_names),
                tool_names: copy_texts(&s.tool_names),
                errors: copy_pairs(&s.errors),
            },
            None => SessionMcpCapabilities {
                servers: self.server_count,
                tools: self.tool_names.len(),
                notification_hooks: self.notification_hook_count,
                server_names: copy_texts(&self.server_names),
                tool_names: copy_texts(&self.tool_names),
                errors: copy_pairs(&self.server_errors),
            },
        }
    }

    /// What one build of the session takes of the servers: what the slot that the session reads
    /// holds, else what the configuration files gave. The hooks of the latter go to the first
    /// build alone.
    pub fn build_inputs(&mut self, shared: &McpProvisionState) -> (r: McpBuildInputs)
        ensures
            match session_slot(*old(self), *shared) {
                Some(s) => {
                    &&& r.tools@ == s.tools@
                    &&& r.hooks@ == s.hooks@
                    &&& texts(r.inject_summary@) == texts(s.inject_summary@)
                    &&& texts(r.inject_and_run@) == texts(s.inject_and_run@)
                    &&& *final(self) == *old(self)
                },
                None => {
                    &&& r.tools@ == old(self).tools@
                    &&& r.hooks@ == old(self).notification_hooks@
                    &&& texts(r.inject_summary@) == texts(old(self).inject_summary_servers@)
                    &&& texts(r.inject_and_run@) == texts(old(self).inject_and_run_servers@)
                    &&& final(self).notification_hooks@ == Seq::<McpHook>::empty()
                    &&& *final(self) == (SessionMcpResources {
                        notification_hooks: final(self).notification_hooks,
                        ..*old(self)
                    })
                },
            },
    {
        match self.slot(shared) {
            Some(s) => McpBuildInputs {
                tools: copy_tools(&s.tools),
                hooks: copy_hooks(&s.hooks),
                inject_summary: copy_texts(&s.inject_summary),
                inject_and_run: copy_texts(&s.inject_and_run),
            },
            None => {
                let mut hooks: Vec<McpHook> = Vec::new();
                std::mem::swap(&mut hooks, &mut self.notification_hooks);
                McpBuildInputs {
                    tools: copy_tools(&self.tools),
                    hooks,
                    inject_summary: copy_texts(&self.inject_summary_servers),
                    inject_and_run: copy_texts(&self.inject_and_run_servers),
                }
            },
        }
    }
}

/// What one build of a session takes of its MCP servers.
#[derive(Debug)]
pub struct McpBuildInputs {
    pub tools: Vec<McpTool>,
    pub hooks: Vec<McpHook>,
    pub inject_summary: Vec<String>,
    pub inject_and_run: Vec<String>,
}

fn copy_tools(v: &Vec<McpTool>) -> (r: Vec<McpTool>)
    ensures
        r@ == v@,
{
    let mut r: Vec<McpTool> = Vec::new();
    let mut i: usize = 0;
    while i < v.len()
        invariant
            i <= v@.len(),
            r@ == v@.take(i as int),
        decreases v@.len() - i,
    {
        r.push(v[i].copy());
        assert(v@.take(i + 1) =~= v@.take(i as int).push(v@[i as int]));
        i += 1;
    }
    assert(v@.take(i as int) =~= v@);
    r
}

fn copy_hooks(v: &Vec<McpHook>) -> (r: Vec<McpHook>)
    ensures
        r@ == v@,
{
    let mut r: Vec<McpHook> = Vec::new();
    let mut i: usize = 0;
    while i < v.len()
        invariant
            i <= v@.len(),
            r@ == v@.take(i as int),
        decreases v@.len() - i,
    {
        r.push(v[i].copy());
        assert(v@.take(i + 1) =~= v@.take(i as int).push(v@[i as int]));
        i += 1;
    }
    assert(v@.take(i as int) =~= v@);
    r
}

proof fn lemma_configs_all_kept(v: Seq<ServerView>, n: int)
    requires
        0 <= n <= v.len(),
    ensures
        configs_kept(v, Seq::empty(), n) == v.take(n),
    decreases n,
{
    if n > 0 {
        lemma_configs_all_kept(v, n - 1);
        assert(v.take(n) =~= v.take(n - 1).push(v[n - 1]));
    } else {
        assert(v.take(0) =~= Seq::empty());
    }
}

// Hooks.

/// The hooks of the sessions in a directory: loaded once, bound to each session anew.
#[derive(Debug)]
pub struct SessionHookResources {
    pub loaded: LoadedHooks,
}

impl SessionHookResources {
    /// The hooks of a directory, bound to no session. Hooks run commands and send webhooks.
    pub fn load(files: &Option<HookFiles>, paths: &HookPaths) -> (r: SessionHookResources)
        ensures
            ({
                let rules = match files {
                    Some(f) => loaded_rules(*f),
                    None => Seq::empty(),
                };
                let notes = match files {
                    Some(f) => loaded_notes(*f),
                    None => Seq::empty(),
                };
                &&& rule_views(r.loaded.runner.rules@) == rules
                &&& texts(r.loaded.diagnostics@) == notes + executor_notes(rules, true, true)
            }),
            r.loaded.runner.session_id@ == ""@,
            r.loaded.runner.work_dir@ == paths.work_dir@,
            r.loaded.runner.base@ == paths.base@,
            r.loaded.runner.home@ == paths.home@,
            r.loaded.runner.runs_commands,
            r.loaded.runner.sends_webhooks,
    {
        let session = HookSession { session_id: owned(""), model: None, thinking_level: None };
        SessionHookResources { loaded: load_with(files, &session, paths, true, true) }
    }

    /// The hooks as a session runs them.
    pub fn loaded_hooks(&self, session: &HookSession) -> (r: LoadedHooks)
        ensures
            rule_views(r.runner.rules@) == rule_views(self.loaded.runner.rules@),
            runs_for(r.runner, *session),
            r.runner.work_dir@ == self.loaded.runner.work_dir@,
            r.runner.base@ == self.loaded.runner.base@,
            r.runner.home@ == self.loaded.runner.home@,
            r.runner.runs_commands == self.loaded.runner.runs_commands,
            r.runner.sends_webhooks == self.loaded.runner.sends_webhooks,
            texts(r.diagnostics@) == texts(self.loaded.diagnostics@),
    {
        LoadedHooks {
            runner: self.loaded.runner.for_session(session),
            diagnostics: copy_texts(&self.loaded.diagnostics),
        }
    }
}

// Extensions.

/// What an extension is allowed.
#[derive(Debug)]
pub enum ExtensionPermission {
    SecretsRead(String),
    Other,
}

/// At most how many engines run extensions.
pub const MAX_ENGINES: usize = 4;

/// How many engines run extensions: one where the machine does not say how much it runs at
/// once.
pub fn engine_count(parallelism: Option<usize>) -> (r: usize)
    ensures
        r == (match parallelism {
            Some(n) => if n <= MAX_ENGINES {
                n
            } else {
                MAX_ENGINES
            },
            None => 1,
        }),
{
    match parallelism {
        Some(n) => if n <= MAX_ENGINES {
            n
        } else {
            MAX_ENGINES
        },
        None => 1,
    }
}

/// The secrets that the first `n` permissions let an extension read.
pub open spec fn readable_secrets(v: Seq<ExtensionPermission>, n: int) -> Seq<Seq<char>>
    decreases n,
{
    if n <= 0 || n > v.len() {
        Seq::empty()
    } else {
        match v[n - 1] {
            ExtensionPermission::SecretsRead(name) => readable_secrets(v, n - 1).push(name@),
            ExtensionPermission::Other => readable_secrets(v, n - 1),
        }
    }
}

/// The secrets that permissions let an extension read. No other is looked up for it.
pub fn secrets_to_read(permissions: &Vec<ExtensionPermission>) -> (r: Vec<String>)
    ensures
        texts(r@) == readable_secrets(permissions@, permissions@.len() as int),
{
    let mut r: Vec<String> = Vec::new();
    let mut i: usize = 0;
    while i < permissions.len()
        invariant
            i <= permissions@.len(),
            texts(r@) == readable_secrets(permissions@, i as int),
        decreases permissions@.len() - i,
    {
        if let ExtensionPermission::SecretsRead(name) = &permissions[i] {
            r.push(name.clone());
        }
        i += 1;
    }
    r
}

// The context of a session.

/// What a session is built from.
#[derive(Debug)]
pub struct SessionExecutionContext {
    pub session_id: String,
    pub cwd: String,
    pub paths: DaemonPaths,
    pub executor_kind: ExecutorKind,
    /// The model, once the client has chosen one.
    pub model: Option<Model>,
    pub thinking: String,
    pub resources: SessionProjectResources,
    pub mcp: SessionMcpResources,
    pub hooks: SessionHookResources,
}

impl SessionExecutionContext {
    /// The context of a session in a directory, which counts in its canonical form where it
    /// has one.
    pub fn new(
        session_id: String,
        cwd: String,
        canonical: Option<String>,
        paths: DaemonPaths,
        executor_kind: ExecutorKind,
        model: Option<Model>,
        thinking: String,
        resources: SessionProjectResources,
        mcp: SessionMcpResources,
        hooks: SessionHookResources,
    ) -> (r: SessionExecutionContext)
        ensures
            ({
                let dir = match canonical {
                    Some(c) => c@,
                    None => cwd@,
                };
                &&& r.cwd@ == dir
                &&& r.paths == (DaemonPaths { work_dir: r.paths.work_dir, ..paths })
                &&& r.paths.work_dir@ == dir
            }),
            r.session_id == session_id,
            r.executor_kind == executor_kind,
            r.model == model,
            r.thinking == thinking,
            r.resources == resources,
            r.mcp == mcp,
            r.hooks == hooks,
    {
        let dir = match canonical {
            Some(c) => c,
            None => cwd,
        };
        SessionExecutionContext {
            session_id,
            paths: paths.with_work_dir(dir.clone()),
            cwd: dir,
            executor_kind,
            model,
            thinking,
            resources,
            mcp,
            hooks,
        }
    }

    /// The directory of a session in a directory that was asked for by the client. Here one
    /// without a canonical form is refused; the caller keeps the cause beside the message.
    pub fn work_dir(requested: &str, canonical: Option<String>) -> (r: Result<String, String>)
        ensures
            match canonical {
                Some(c) => r matches Ok(d) && d@ == c@,
                None => r matches Err(e) && e@ == "canonicalize work dir "@ + requested@,
            },
    {
        match canonical {
            Some(c) => Ok(c),
            None => {
                let mut e = owned("canonicalize work dir ");
                e.push_str(requested);
                Err(e)
            },
        }
    }
}

// Laws.

proof fn lemma_last_named(skills: Seq<Skill>, name: Seq<char>, i: int)
    requires
        0 <= i < skills.len(),
        skills[i].name@ == name,
    ensures
        last_named(skills, name) is Some,
    decreases skills.len(),
{
    if skills.last().name@ != name {
        lemma_last_named(skills.drop_last(), name, i);
    }
}

proof fn lemma_merged_has(builtins: Seq<Skill>, over: Seq<Skill>, i: int) -> (at: int)
    requires
        0 <= i < over.len(),
    ensures
        0 <= at < merged_skills(builtins, over).len(),
        merged_skills(builtins, over)[at].name@ == over[i].name@,
    decreases over.len(),
{
    let before = merged_skills(builtins, over.drop_last());
    crate::skill::lemma_skill_pos(before, over.last().name@, 0);
    let pos = crate::skill::skill_pos(before, over.last().name@, 0);
    let out = merged_skills(builtins, over);
    if i == over.len() - 1 {
        if pos < before.len() {
            pos
        } else {
            before.len() as int
        }
    } else {
        let at = lemma_merged_has(builtins, over.drop_last(), i);
        if pos < before.len() && at == pos {
            assert(out[at].name@ == before[at].name@);
        } else {
            assert(out[at] == before[at]);
        }
        at
    }
}

/// A reload never wipes out what the controller provides: whatever the disk holds and the user
/// has switched there, each skill that was provided is there under its name afterwards, and the
/// result is the same.
pub proof fn law_reload_keeps_what_was_provided(
    r: SessionProjectResources,
    scanned: Seq<Skill>,
    overrides: Seq<SkillOverride>,
    other: Seq<Skill>,
    other_overrides: Seq<SkillOverride>,
    i: int,
) -> (at: int)
    requires
        !r.load_local_sources,
        distinct_names(r.builtins@),
        0 <= i < r.provisioned_skills@.len(),
    ensures
        reloaded_skills(r, scanned, overrides) == reloaded_skills(r, other, other_overrides),
        0 <= at < reloaded_skills(r, scanned, overrides).len(),
        ({
            let skill = reloaded_skills(r, scanned, overrides)[at];
            &&& skill.name@ == r.provisioned_skills@[i].name@
            &&& last_named(r.provisioned_skills@, skill.name@) == Some(skill)
        }),
{
    let over = r.provisioned_skills@;
    let out = merged_skills(r.builtins@, over);
    law_no_switches_change_nothing(out);
    let at = lemma_merged_has(r.builtins@, over, i);
    law_user_and_project_skills_shadow_builtins(r.builtins@, over);
    lemma_last_named(over, over[i].name@, i);
    if at < r.builtins@.len() {
        assert(out[at].name@ == r.builtins@[at].name@);
    }
    at
}

/// What is told of the servers of a session agrees with itself: as many servers, tools and
/// hooks as are listed.
pub proof fn law_capabilities_count_what_they_list(s: McpProvisionState)
    requires
        is_flat(s),
    ensures
        s.server_names@.len() == s.servers@.len(),
        s.hooks@.len() == s.servers@.len(),
        s.tool_names@.len() == s.tools@.len(),
{
    assert(texts(s.server_names@).len() == connected_views(s.servers@).len());
    assert(texts(s.tool_names@).len() == s.tools@.len());
}

proof fn lemma_configs_kept(v: Seq<ServerView>, names: Seq<Seq<char>>, n: int)
    requires
        0 <= n <= v.len(),
    ensures
        configs_kept(v, names, n) == v.take(n).filter(|s: ServerView| !names.contains(s.name)),
    decreases n,
{
    reveal(Seq::filter);
    if n > 0 {
        lemma_configs_kept(v, names, n - 1);
        assert(v.take(n).drop_last() =~= v.take(n - 1));
    }
}

/// The servers of the daemon that a session has not replaced stay configured, in their order.
pub proof fn law_configurations_are_kept(v: Seq<ServerView>, names: Seq<Seq<char>>)
    ensures
        configs_kept(v, names, v.len() as int) == v.filter(|s: ServerView| !names.contains(s.name)),
{
    lemma_configs_kept(v, names, v.len() as int);
    assert(v.take(v.len() as int) =~= v);
}

proof fn lemma_secrets(v: Seq<ExtensionPermission>, n: int, name: Seq<char>)
    requires
        0 <= n <= v.len(),
    ensures
        readable_secrets(v, n).contains(name) <==> exists|i: int|
            0 <= i < n && ((#[trigger] v[i]) matches ExtensionPermission::SecretsRead(s) && s@
                == name),
    decreases n,
{
    if n > 0 {
        lemma_secrets(v, n - 1, name);
        let before = readable_secrets(v, n - 1);
        let all = readable_secrets(v, n);
        if let ExtensionPermission::SecretsRead(s) = v[n - 1] {
            assert(all[before.len() as int] == s@);
            if before.contains(name) {
                let i = choose|i: int| 0 <= i < before.len() && before[i] == name;
                assert(all[i] == name);
            }
            if all.contains(name) && name != s@ {
                let i = choose|i: int| 0 <= i < all.len() && all[i] == name;
                assert(before[i] == name);
            }
        }
    }
}

/// A secret is read exactly where a permission to read it was given.
pub proof fn law_only_permitted_secrets_are_read(v: Seq<ExtensionPermission>, name: Seq<char>)
    ensures
        readable_secrets(v, v.len() as int).contains(name) <==> exists|i: int|
            0 <= i < v.len() && ((#[trigger] v[i]) matches ExtensionPermission::SecretsRead(s)
                && s@ == name),
{
    lemma_secrets(v, v.len() as int, name);
}

/// A session has its own servers where it has asked for some, else those that the controller
/// provides, else those that the daemon has loaded.
pub proof fn law_own_servers_come_first(r: SessionMcpResources, shared: McpProvisionState)
    ensures
        r.overlay matches Some(o) ==> daemon_layer_of(r, shared) == state_layer(o.slot),
        r.overlay is None && r.provisioned ==> daemon_layer_of(r, shared) == state_layer(shared),
        r.overlay is None && !r.provisioned ==> daemon_layer_of(r, shared).servers
            == connected_views(r.daemon_servers@),
{
}

/// A daemon that reads the disk finds every skill of the disk after a reload, under its name
/// and as the user has switched it, whatever the controller provides.
pub proof fn law_reload_reads_the_disk(
    r: SessionProjectResources,
    scanned: Seq<Skill>,
    overrides: Seq<SkillOverride>,
    i: int,
) -> (at: int)
    requires
        r.load_local_sources,
        distinct_names(r.builtins@),
        0 <= i < scanned.len(),
    ensures
        0 <= at < reloaded_skills(r, scanned, overrides).len(),
        ({
            let skill = reloaded_skills(r, scanned, overrides)[at];
            let found = last_named(scanned, scanned[i].name@);
            &&& skill.name@ == scanned[i].name@
            &&& found is Some
            &&& skill == switched(found->0, overrides)
        }),
{
    let out = merged_skills(r.builtins@, scanned);
    let at = lemma_merged_has(r.builtins@, scanned, i);
    law_user_and_project_skills_shadow_builtins(r.builtins@, scanned);
    lemma_last_named(scanned, scanned[i].name@, i);
    if at < r.builtins@.len() {
        assert(out[at].name@ == r.builtins@[at].name@);
    }
    at
}

} // verus!
