//! The layers of connected MCP servers that a daemon and a session have.
//!
//! A connected tool or hook is known here by a number that the caller gives it.

use crate::mcp_loader::{names_differ, server_views, ServerConfig, ServerView};
use crate::order::has_text;
use crate::text::{
    after_prefix, find_from, law_prefixes_are_taken_off, lemma_find_from, lemma_texts_empty,
    lemma_texts_push, occurs_at, owned, split_once, split_once_text, strip_prefix, texts,
};
use vstd::prelude::*;

verus! {

broadcast use {lemma_texts_push, lemma_texts_empty};

/// A tool of a connected server.
#[derive(Debug)]
pub struct McpTool {
    pub id: u64,
    pub name: String,
}

/// What receives the notifications of a connected server.
#[derive(Debug)]
pub struct McpHook {
    pub id: u64,
    pub label: String,
}

/// A connected server.
#[derive(Debug)]
pub struct ConnectedMcpServer {
    pub name: String,
    pub tools: Vec<McpTool>,
    pub hook: McpHook,
}

/// The content of a `ConnectedMcpServer`.
pub struct ConnectedView {
    pub name: Seq<char>,
    pub tools: Seq<McpTool>,
    pub hook: McpHook,
}

impl View for ConnectedMcpServer {
    type V = ConnectedView;

    open spec fn view(&self) -> ConnectedView {
        ConnectedView { name: self.name@, tools: self.tools@, hook: self.hook }
    }
}

impl McpTool {
    pub fn copy(&self) -> (r: McpTool)
        ensures
            r == *self,
    {
        McpTool { id: self.id, name: self.name.clone() }
    }
}

impl McpHook {
    pub fn copy(&self) -> (r: McpHook)
        ensures
            r == *self,
    {
        McpHook { id: self.id, label: self.label.clone() }
    }
}

impl ConnectedMcpServer {
    pub fn copy(&self) -> (r: ConnectedMcpServer)
        ensures
            r@ == self@,
    {
        let mut tools: Vec<McpTool> = Vec::new();
        let mut i: usize = 0;
        while i < self.tools.len()
            invariant
                i <= self.tools@.len(),
                tools@ == self.tools@.take(i as int),
            decreases self.tools@.len() - i,
        {
            tools.push(self.tools[i].copy());
            assert(self.tools@.take(i + 1) =~= self.tools@.take(i as int).push(
                self.tools@[i as int],
            ));
            i += 1;
        }
        assert(self.tools@.take(i as int) =~= self.tools@);
        ConnectedMcpServer { name: self.name.clone(), tools, hook: self.hook.copy() }
    }
}

pub open spec fn connected_views(v: Seq<ConnectedMcpServer>) -> Seq<ConnectedView> {
    Seq::new(v.len(), |i: int| v[i]@)
}

pub open spec fn pair_views(v: Seq<(String, String)>) -> Seq<(Seq<char>, Seq<char>)> {
    Seq::new(v.len(), |i: int| (v[i].0@, v[i].1@))
}

/// Connected servers, with the names of those whose notifications go into the chat, and the
/// failures, each with the name of its server.
#[derive(Debug)]
pub struct McpLayer {
    pub servers: Vec<ConnectedMcpServer>,
    pub inject_summary: Vec<String>,
    pub inject_and_run: Vec<String>,
    pub errors: Vec<(String, String)>,
}

/// The content of an `McpLayer`.
#[verifier::ext_equal]
pub struct LayerView {
    pub servers: Seq<ConnectedView>,
    pub inject_summary: Seq<Seq<char>>,
    pub inject_and_run: Seq<Seq<char>>,
    pub errors: Seq<(Seq<char>, Seq<char>)>,
}

impl View for McpLayer {
    type V = LayerView;

    open spec fn view(&self) -> LayerView {
        LayerView {
            servers: connected_views(self.servers@),
            inject_summary: texts(self.inject_summary@),
            inject_and_run: texts(self.inject_and_run@),
            errors: pair_views(self.errors@),
        }
    }
}

pub open spec fn empty_layer() -> LayerView {
    LayerView {
        servers: Seq::empty(),
        inject_summary: Seq::empty(),
        inject_and_run: Seq::empty(),
        errors: Seq::empty(),
    }
}

impl Default for McpLayer {
    fn default() -> (r: McpLayer)
        ensures
            r@ == empty_layer(),
    {
        let r = McpLayer {
            servers: Vec::new(),
            inject_summary: Vec::new(),
            inject_and_run: Vec::new(),
            errors: Vec::new(),
        };
        assert(r@ =~= empty_layer());
        r
    }
}

/// The tools of the first `n` servers.
pub open spec fn all_tools(v: Seq<ConnectedView>, n: int) -> Seq<McpTool>
    decreases n,
{
    if n <= 0 || n > v.len() {
        Seq::empty()
    } else {
        all_tools(v, n - 1) + v[n - 1].tools
    }
}

/// The names of tools.
pub open spec fn names_of_tools(v: Seq<McpTool>) -> Seq<Seq<char>> {
    Seq::new(v.len(), |i: int| v[i].name@)
}

/// The hooks of servers.
pub open spec fn all_hooks(v: Seq<ConnectedView>) -> Seq<McpHook> {
    Seq::new(v.len(), |i: int| v[i].hook)
}

/// The names of servers.
pub open spec fn connected_names(v: Seq<ConnectedView>) -> Seq<Seq<char>> {
    Seq::new(v.len(), |i: int| v[i].name)
}

fn collect_tools(servers: &Vec<ConnectedMcpServer>) -> (r: Vec<McpTool>)
    ensures
        r@ == all_tools(connected_views(servers@), servers@.len() as int),
{
    let mut r: Vec<McpTool> = Vec::new();
    let ghost views = connected_views(servers@);
    let mut i: usize = 0;
    while i < servers.len()
        invariant
            i <= servers@.len(),
            views == connected_views(servers@),
            r@ == all_tools(views, i as int),
        decreases servers@.len() - i,
    {
        let tools = &servers[i].tools;
        let ghost before = r@;
        let mut k: usize = 0;
        assert(before + tools@.take(0) =~= before);
        while k < tools.len()
            invariant
                k <= tools@.len(),
                r@ == before + tools@.take(k as int),
            decreases tools@.len() - k,
        {
            r.push(tools[k].copy());
            assert(before + tools@.take(k + 1) =~= (before + tools@.take(k as int)).push(
                tools@[k as int],
            ));
            k += 1;
        }
        assert(tools@.take(k as int) =~= views[i as int].tools);
        i += 1;
    }
    r
}

fn collect_hooks(servers: &Vec<ConnectedMcpServer>) -> (r: Vec<McpHook>)
    ensures
        r@ == all_hooks(connected_views(servers@)),
{
    let mut r: Vec<McpHook> = Vec::new();
    let ghost all = all_hooks(connected_views(servers@));
    let mut i: usize = 0;
    assert(r@ =~= all.take(0));
    while i < servers.len()
        invariant
            i <= servers@.len(),
            all == all_hooks(connected_views(servers@)),
            r@ == all.take(i as int),
        decreases servers@.len() - i,
    {
        r.push(servers[i].hook.copy());
        assert(all.take(i + 1) =~= all.take(i as int).push(all[i as int]));
        i += 1;
    }
    assert(all.take(i as int) =~= all);
    r
}

fn collect_names(servers: &Vec<ConnectedMcpServer>) -> (r: Vec<String>)
    ensures
        texts(r@) == connected_names(connected_views(servers@)),
{
    let mut r: Vec<String> = Vec::new();
    let ghost all = connected_names(connected_views(servers@));
    let mut i: usize = 0;
    assert(texts(r@) =~= all.take(0));
    while i < servers.len()
        invariant
            i <= servers@.len(),
            all == connected_names(connected_views(servers@)),
            texts(r@) == all.take(i as int),
        decreases servers@.len() - i,
    {
        r.push(servers[i].name.clone());
        assert(all.take(i + 1) =~= all.take(i as int).push(all[i as int]));
        i += 1;
    }
    assert(all.take(i as int) =~= all);
    r
}

fn tool_names_of(tools: &Vec<McpTool>) -> (r: Vec<String>)
    ensures
        texts(r@) == names_of_tools(tools@),
{
    let mut r: Vec<String> = Vec::new();
    let ghost all = names_of_tools(tools@);
    let mut i: usize = 0;
    assert(texts(r@) =~= all.take(0));
    while i < tools.len()
        invariant
            i <= tools@.len(),
            all == names_of_tools(tools@),
            texts(r@) == all.take(i as int),
        decreases tools@.len() - i,
    {
        r.push(tools[i].name.clone());
        assert(all.take(i + 1) =~= all.take(i as int).push(all[i as int]));
        i += 1;
    }
    assert(all.take(i as int) =~= all);
    r
}

impl McpLayer {
    /// The tools of the servers, in order.
    pub fn tools(&self) -> (r: Vec<McpTool>)
        ensures
            r@ == all_tools(self@.servers, self@.servers.len() as int),
    {
        collect_tools(&self.servers)
    }

    /// The hooks of the servers, in order.
    pub fn hooks(&self) -> (r: Vec<McpHook>)
        ensures
            r@ == all_hooks(self@.servers),
    {
        collect_hooks(&self.servers)
    }

    pub fn server_names(&self) -> (r: Vec<String>)
        ensures
            texts(r@) == connected_names(self@.servers),
    {
        collect_names(&self.servers)
    }

    pub fn tool_names(&self) -> (r: Vec<String>)
        ensures
            texts(r@) == names_of_tools(all_tools(self@.servers, self@.servers.len() as int)),
    {
        tool_names_of(&collect_tools(&self.servers))
    }

    pub fn copy(&self) -> (r: McpLayer)
        ensures
            r@ == self@,
    {
        let none: Vec<String> = Vec::new();
        let empty: McpLayer = McpLayer::default();
        let r = merge_mcp_layers(self, &none, &empty);
        proof {
            lemma_nothing_excluded(self@);
            assert(r@ =~= self@);
        }
        r
    }
}

/// The servers whose names are not excluded, among the first `n`.
pub open spec fn servers_kept(v: Seq<ConnectedView>, excluded: Seq<Seq<char>>, n: int) -> Seq<
    ConnectedView,
>
    decreases n,
{
    if n <= 0 || n > v.len() {
        Seq::empty()
    } else if excluded.contains(v[n - 1].name) {
        servers_kept(v, excluded, n - 1)
    } else {
        servers_kept(v, excluded, n - 1).push(v[n - 1])
    }
}

/// The names that are not excluded, among the first `n`.
pub open spec fn names_kept(v: Seq<Seq<char>>, excluded: Seq<Seq<char>>, n: int) -> Seq<Seq<char>>
    decreases n,
{
    if n <= 0 || n > v.len() {
        Seq::empty()
    } else if excluded.contains(v[n - 1]) {
        names_kept(v, excluded, n - 1)
    } else {
        names_kept(v, excluded, n - 1).push(v[n - 1])
    }
}

/// The failures whose names are not excluded, among the first `n`.
pub open spec fn errors_kept(
    v: Seq<(Seq<char>, Seq<char>)>,
    excluded: Seq<Seq<char>>,
    n: int,
) -> Seq<(Seq<char>, Seq<char>)>
    decreases n,
{
    if n <= 0 || n > v.len() {
        Seq::empty()
    } else if excluded.contains(v[n - 1].0) {
        errors_kept(v, excluded, n - 1)
    } else {
        errors_kept(v, excluded, n - 1).push(v[n - 1])
    }
}

/// A layer with another laid over it, which takes the place of everything that bears one of
/// the given names.
pub open spec fn merged_layers(
    daemon: LayerView,
    names: Seq<Seq<char>>,
    overlay: LayerView,
) -> LayerView {
    LayerView {
        servers: servers_kept(daemon.servers, names, daemon.servers.len() as int)
            + overlay.servers,
        inject_summary: names_kept(
            daemon.inject_summary,
            names,
            daemon.inject_summary.len() as int,
        ) + overlay.inject_summary,
        inject_and_run: names_kept(
            daemon.inject_and_run,
            names,
            daemon.inject_and_run.len() as int,
        ) + overlay.inject_and_run,
        errors: errors_kept(daemon.errors, names, daemon.errors.len() as int) + overlay.errors,
    }
}

fn append_names(r: &mut Vec<String>, v: &Vec<String>, excluded: &Vec<String>)
    ensures
        texts(final(r)@) == texts(old(r)@) + names_kept(
            texts(v@),
            texts(excluded@),
            v@.len() as int,
        ),
{
    let ghost before = texts(r@);
    let ghost all = texts(v@);
    let ghost out = texts(excluded@);
    let mut i: usize = 0;
    assert(before + names_kept(all, out, 0) =~= before);
    while i < v.len()
        invariant
            i <= v@.len(),
            all == texts(v@),
            out == texts(excluded@),
            texts(r@) == before + names_kept(all, out, i as int),
        decreases v@.len() - i,
    {
        assert(all[i as int] == v@[i as int]@);
        let ghost kept = names_kept(all, out, i as int);
        if !has_text(excluded, v[i].as_str()) {
            r.push(v[i].clone());
            assert((before + kept).push(v@[i as int]@) =~= before + kept.push(v@[i as int]@));
        }
        i += 1;
    }
}

fn append_servers(
    r: &mut Vec<ConnectedMcpServer>,
    v: &Vec<ConnectedMcpServer>,
    excluded: &Vec<String>,
)
    ensures
        connected_views(final(r)@) == connected_views(old(r)@) + servers_kept(
            connected_views(v@),
            texts(excluded@),
            v@.len() as int,
        ),
{
    let ghost before = connected_views(r@);
    let ghost all = connected_views(v@);
    let ghost out = texts(excluded@);
    let mut i: usize = 0;
    assert(before + servers_kept(all, out, 0) =~= before);
    while i < v.len()
        invariant
            i <= v@.len(),
            all == connected_views(v@),
            out == texts(excluded@),
            connected_views(r@) == before + servers_kept(all, out, i as int),
        decreases v@.len() - i,
    {
        assert(all[i as int] == v@[i as int]@);
        let ghost kept = servers_kept(all, out, i as int);
        if !has_text(excluded, v[i].name.as_str()) {
            let ghost so_far = connected_views(r@);
            let server = v[i].copy();
            r.push(server);
            assert(connected_views(r@) =~= so_far.push(v@[i as int]@));
            assert((before + kept).push(v@[i as int]@) =~= before + kept.push(v@[i as int]@));
        }
        i += 1;
    }
}

fn append_errors(
    r: &mut Vec<(String, String)>,
    v: &Vec<(String, String)>,
    excluded: &Vec<String>,
)
    ensures
        pair_views(final(r)@) == pair_views(old(r)@) + errors_kept(
            pair_views(v@),
            texts(excluded@),
            v@.len() as int,
        ),
{
    let ghost before = pair_views(r@);
    let ghost all = pair_views(v@);
    let ghost out = texts(excluded@);
    let mut i: usize = 0;
    assert(before + errors_kept(all, out, 0) =~= before);
    while i < v.len()
        invariant
            i <= v@.len(),
            all == pair_views(v@),
            out == texts(excluded@),
            pair_views(r@) == before + errors_kept(all, out, i as int),
        decreases v@.len() - i,
    {
        let ghost kept = errors_kept(all, out, i as int);
        if !has_text(excluded, v[i].0.as_str()) {
            let ghost so_far = pair_views(r@);
            r.push((v[i].0.clone(), v[i].1.clone()));
            assert(pair_views(r@) =~= so_far.push(all[i as int]));
            assert((before + kept).push(all[i as int]) =~= before + kept.push(all[i as int]));
        }
        i += 1;
    }
}

proof fn lemma_servers_all_kept(v: Seq<ConnectedView>, n: int)
    requires
        0 <= n <= v.len(),
    ensures
        servers_kept(v, Seq::empty(), n) == v.take(n),
    decreases n,
{
    if n > 0 {
        lemma_servers_all_kept(v, n - 1);
        assert(v.take(n) =~= v.take(n - 1).push(v[n - 1]));
    } else {
        assert(v.take(0) =~= Seq::empty());
    }
}

proof fn lemma_names_all_kept(v: Seq<Seq<char>>, n: int)
    requires
        0 <= n <= v.len(),
    ensures
        names_kept(v, Seq::empty(), n) == v.take(n),
    decreases n,
{
    if n > 0 {
        lemma_names_all_kept(v, n - 1);
        assert(v.take(n) =~= v.take(n - 1).push(v[n - 1]));
    } else {
        assert(v.take(0) =~= Seq::empty());
    }
}

proof fn lemma_errors_all_kept(v: Seq<(Seq<char>, Seq<char>)>, n: int)
    requires
        0 <= n <= v.len(),
    ensures
        errors_kept(v, Seq::empty(), n) == v.take(n),
    decreases n,
{
    if n > 0 {
        lemma_errors_all_kept(v, n - 1);
        assert(v.take(n) =~= v.take(n - 1).push(v[n - 1]));
    } else {
        assert(v.take(0) =~= Seq::empty());
    }
}

proof fn lemma_nothing_excluded(layer: LayerView)
    ensures
        merged_layers(layer, Seq::empty(), empty_layer()) =~= layer,
{
    lemma_servers_all_kept(layer.servers, layer.servers.len() as int);
    lemma_names_all_kept(layer.inject_summary, layer.inject_summary.len() as int);
    lemma_names_all_kept(layer.inject_and_run, layer.inject_and_run.len() as int);
    lemma_errors_all_kept(layer.errors, layer.errors.len() as int);
    assert(layer.servers.take(layer.servers.len() as int) =~= layer.servers);
    assert(layer.inject_summary.take(layer.inject_summary.len() as int) =~= layer.inject_summary);
    assert(layer.inject_and_run.take(layer.inject_and_run.len() as int) =~= layer.inject_and_run);
    assert(layer.errors.take(layer.errors.len() as int) =~= layer.errors);
}

/// A layer with another laid over it. The names come from what the session asked for, not
/// from what connected: a session's server that failed still stands in the place of the
/// daemon's.
pub fn merge_mcp_layers(daemon: &McpLayer, overlay_names: &Vec<String>, overlay: &McpLayer) -> (r:
    McpLayer)
    ensures
        r@ == merged_layers(daemon@, texts(overlay_names@), overlay@),
{
    let none: Vec<String> = Vec::new();
    let mut r = McpLayer {
        servers: Vec::new(),
        inject_summary: Vec::new(),
        inject_and_run: Vec::new(),
        errors: Vec::new(),
    };
    append_servers(&mut r.servers, &daemon.servers, overlay_names);
    append_servers(&mut r.servers, &overlay.servers, &none);
    append_names(&mut r.inject_summary, &daemon.inject_summary, overlay_names);
    append_names(&mut r.inject_summary, &overlay.inject_summary, &none);
    append_names(&mut r.inject_and_run, &daemon.inject_and_run, overlay_names);
    append_names(&mut r.inject_and_run, &overlay.inject_and_run, &none);
    append_errors(&mut r.errors, &daemon.errors, overlay_names);
    append_errors(&mut r.errors, &overlay.errors, &none);
    proof {
        lemma_servers_all_kept(overlay@.servers, overlay@.servers.len() as int);
        lemma_names_all_kept(overlay@.inject_summary, overlay@.inject_summary.len() as int);
        lemma_names_all_kept(overlay@.inject_and_run, overlay@.inject_and_run.len() as int);
        lemma_errors_all_kept(overlay@.errors, overlay@.errors.len() as int);
        assert(r@.servers =~= merged_layers(daemon@, texts(overlay_names@), overlay@).servers);
        assert(r@.inject_summary =~= merged_layers(
            daemon@,
            texts(overlay_names@),
            overlay@,
        ).inject_summary);
        assert(r@.inject_and_run =~= merged_layers(
            daemon@,
            texts(overlay_names@),
            overlay@,
        ).inject_and_run);
        assert(r@.errors =~= merged_layers(daemon@, texts(overlay_names@), overlay@).errors);
    }
    r
}

// What connecting gave.

/// The diagnostic of a server that failed.
pub open spec fn failure_text(name: Seq<char>, error: Seq<char>) -> Seq<char> {
    "mcp server '"@ + name + "' failed: "@ + error
}

/// What a diagnostic is about, and what it says.
pub open spec fn diagnostic_parts(diagnostic: Seq<char>) -> (Seq<char>, Seq<char>) {
    let server = match after_prefix(diagnostic, "mcp server '"@) {
        Some(rest) => split_once_text(rest, "' failed: "@),
        None => None,
    };
    let config = match after_prefix(diagnostic, "mcp config ("@) {
        Some(rest) => split_once_text(rest, "): "@),
        None => None,
    };
    match (server, config) {
        (Some(parts), _) => parts,
        (None, Some((head, message))) => {
            let label = match split_once_text(head, ", "@) {
                Some((l, _)) => l,
                None => head,
            };
            ("mcp.toml ("@ + label + ")"@, message)
        },
        (None, None) => ("mcp"@, diagnostic),
    }
}

/// What a diagnostic is about, and what it says: the failure of a server, a fault of a
/// configuration file, or anything else under the name `mcp`.
pub fn parse_mcp_diagnostic(diagnostic: &str) -> (r: (String, String))
    ensures
        (r.0@, r.1@) == diagnostic_parts(diagnostic@),
{
    if let Some(rest) = strip_prefix(diagnostic, "mcp server '") {
        if let Some((name, message)) = split_once(rest.as_str(), "' failed: ") {
            return (name, message);
        }
    }
    if let Some(rest) = strip_prefix(diagnostic, "mcp config (") {
        if let Some((head, message)) = split_once(rest.as_str(), "): ") {
            let label = match split_once(head.as_str(), ", ") {
                Some((l, _)) => l,
                None => head,
            };
            let mut name = owned("mcp.toml (");
            name.push_str(label.as_str());
            name.push_str(")");
            return (name, message);
        }
    }
    (owned("mcp"), owned(diagnostic))
}

/// What came of a connection: the tools and the hook, or an error.
pub type ConnectResult = Result<(Vec<McpTool>, McpHook), String>;

/// The names of the servers that connected and whose notifications are treated in a way, among
/// the first `n`.
pub open spec fn flagged(
    v: Seq<ServerView>,
    results: Seq<ConnectResult>,
    run: bool,
    n: int,
) -> Seq<Seq<char>>
    decreases n,
{
    if n <= 0 || n > v.len() || n > results.len() {
        Seq::empty()
    } else if results[n - 1] is Ok && ((run && v[n - 1].inject_and_run) || (!run && v[n
        - 1].inject_summary)) {
        flagged(v, results, run, n - 1).push(v[n - 1].name)
    } else {
        flagged(v, results, run, n - 1)
    }
}

/// The servers that connected, among the first `n`.
pub open spec fn connected_in(v: Seq<ServerView>, results: Seq<ConnectResult>, n: int) -> Seq<
    ConnectedView,
>
    decreases n,
{
    if n <= 0 || n > v.len() || n > results.len() {
        Seq::empty()
    } else {
        match results[n - 1] {
            Ok((tools, hook)) => connected_in(v, results, n - 1).push(
                ConnectedView { name: v[n - 1].name, tools: tools@, hook },
            ),
            Err(_) => connected_in(v, results, n - 1),
        }
    }
}

/// The diagnostics of the servers that failed, among the first `n`.
pub open spec fn failures_in(v: Seq<ServerView>, results: Seq<ConnectResult>, n: int) -> Seq<
    Seq<char>,
>
    decreases n,
{
    if n <= 0 || n > v.len() || n > results.len() {
        Seq::empty()
    } else {
        match results[n - 1] {
            Ok(_) => failures_in(v, results, n - 1),
            Err(e) => failures_in(v, results, n - 1).push(failure_text(v[n - 1].name, e@)),
        }
    }
}

pub open spec fn parts_of(v: Seq<Seq<char>>) -> Seq<(Seq<char>, Seq<char>)> {
    Seq::new(v.len(), |i: int| diagnostic_parts(v[i]))
}

/// The layer that connecting to servers gave.
pub open spec fn connected_layer(v: Seq<ServerView>, results: Seq<ConnectResult>) -> LayerView {
    let n = v.len() as int;
    LayerView {
        servers: connected_in(v, results, n),
        inject_summary: flagged(v, results, false, n),
        inject_and_run: flagged(v, results, true, n),
        errors: parts_of(failures_in(v, results, n)),
    }
}

fn flag_names(configs: &Vec<ServerConfig>, results: &Vec<ConnectResult>, run: bool) -> (r: Vec<
    String,
>)
    requires
        configs@.len() == results@.len(),
    ensures
        texts(r@) == flagged(server_views(configs@), results@, run, configs@.len() as int),
{
    let mut r: Vec<String> = Vec::new();
    let ghost views = server_views(configs@);
    let mut i: usize = 0;
    while i < configs.len()
        invariant
            i <= configs@.len(),
            configs@.len() == results@.len(),
            views == server_views(configs@),
            texts(r@) == flagged(views, results@, run, i as int),
        decreases configs@.len() - i,
    {
        let c = &configs[i];
        let connected = results[i].is_ok();
        if connected && ((run && c.inject_and_run) || (!run && c.inject_summary)) {
            r.push(c.name.clone());
        }
        i += 1;
    }
    r
}

fn parse_all(v: &Vec<String>) -> (r: Vec<(String, String)>)
    ensures
        pair_views(r@) == parts_of(texts(v@)),
{
    let mut r: Vec<(String, String)> = Vec::new();
    let ghost all = parts_of(texts(v@));
    let mut i: usize = 0;
    assert(pair_views(r@) =~= all.take(0));
    while i < v.len()
        invariant
            i <= v@.len(),
            all == parts_of(texts(v@)),
            pair_views(r@) == all.take(i as int),
        decreases v@.len() - i,
    {
        let ghost before = pair_views(r@);
        r.push(parse_mcp_diagnostic(v[i].as_str()));
        assert(pair_views(r@) =~= before.push(all[i as int]));
        assert(all.take(i + 1) =~= all.take(i as int).push(all[i as int]));
        i += 1;
    }
    assert(all.take(i as int) =~= all);
    r
}

/// The layer that connecting to servers gave, and the diagnostics of those that failed. The
/// layer holds the servers that connected, not those that were tried, and so do its lists of
/// those whose notifications go into the chat.
pub fn connect_servers(configs: &Vec<ServerConfig>, results: Vec<ConnectResult>) -> (r: (
    McpLayer,
    Vec<String>,
))
    requires
        configs@.len() == results@.len(),
    ensures
        ({
            let views = server_views(configs@);
            &&& r.0@ == connected_layer(views, results@)
            &&& texts(r.1@) == failures_in(views, results@, views.len() as int)
        }),
{
    let ghost views = server_views(configs@);
    let ghost all = results@;
    let inject_summary = flag_names(configs, &results, false);
    let inject_and_run = flag_names(configs, &results, true);
    let mut servers: Vec<ConnectedMcpServer> = Vec::new();
    let mut diagnostics: Vec<String> = Vec::new();
    let mut pending = results;
    let end: usize = configs.len();
    let mut i: usize = 0;
    assert(connected_views(servers@) =~= connected_in(views, all, 0));
    while i < end
        invariant
            i <= end,
            end == configs@.len(),
            all.len() == end,
            pending@ == all.skip(i as int),
            views == server_views(configs@),
            connected_views(servers@) == connected_in(views, all, i as int),
            texts(diagnostics@) == failures_in(views, all, i as int),
        decreases end - i,
    {
        let ghost so_far = connected_views(servers@);
        let result = pending.remove(0);
        assert(result == all[i as int]);
        assert(pending@ =~= all.skip(i + 1));
        match result {
            Ok((tools, hook)) => {
                let server = ConnectedMcpServer { name: configs[i].name.clone(), tools, hook };
                servers.push(server);
                assert(connected_views(servers@) =~= so_far.push(server@));
            },
            Err(e) => {
                let mut m = owned("mcp server '");
                m.push_str(configs[i].name.as_str());
                m.push_str("' failed: ");
                m.push_str(e.as_str());
                diagnostics.push(m);
            },
        }
        i += 1;
    }
    let layer = McpLayer {
        servers,
        inject_summary,
        inject_and_run,
        errors: parse_all(&diagnostics),
    };
    (layer, diagnostics)
}

/// What was loaded: the servers asked for, those that connected, and what was noted.
#[derive(Debug)]
pub struct LoadedMcp {
    pub configs: Vec<ServerConfig>,
    pub layer: McpLayer,
    pub diagnostics: Vec<String>,
}

impl LoadedMcp {
    /// Nothing, for a start without configuration files.
    pub fn empty() -> (r: LoadedMcp)
        ensures
            r.configs@ == Seq::<ServerConfig>::empty(),
            r.layer@ == empty_layer(),
            texts(r.diagnostics@) == Seq::<Seq<char>>::empty(),
    {
        LoadedMcp { configs: Vec::new(), layer: McpLayer::default(), diagnostics: Vec::new() }
    }
}

/// The servers that are provided at run time.
#[derive(Debug)]
pub struct McpProvisionState {
    /// The servers asked for last, to connect to again.
    pub configs: Vec<ServerConfig>,
    pub servers: Vec<ConnectedMcpServer>,
    pub tools: Vec<McpTool>,
    pub hooks: Vec<McpHook>,
    pub inject_summary: Vec<String>,
    pub inject_and_run: Vec<String>,
    pub server_names: Vec<String>,
    pub tool_names: Vec<String>,
    pub errors: Vec<(String, String)>,
    /// The labels of the hooks that the live session has.
    pub registered_labels: Vec<String>,
}

/// Whether the flat lists of a state are those of its servers.
pub open spec fn is_flat(s: McpProvisionState) -> bool {
    let views = connected_views(s.servers@);
    &&& s.tools@ == all_tools(views, views.len() as int)
    &&& s.hooks@ == all_hooks(views)
    &&& texts(s.server_names@) == connected_names(views)
    &&& texts(s.tool_names@) == names_of_tools(s.tools@)
}

pub open spec fn state_layer(s: McpProvisionState) -> LayerView {
    LayerView {
        servers: connected_views(s.servers@),
        inject_summary: texts(s.inject_summary@),
        inject_and_run: texts(s.inject_and_run@),
        errors: pair_views(s.errors@),
    }
}

/// The labels of hooks.
pub open spec fn hook_labels(v: Seq<McpHook>) -> Seq<Seq<char>> {
    Seq::new(v.len(), |i: int| v[i].label@)
}

impl Default for McpProvisionState {
    fn default() -> (r: McpProvisionState)
        ensures
            r.configs@ == Seq::<ServerConfig>::empty(),
            state_layer(r) == empty_layer(),
            is_flat(r),
            texts(r.registered_labels@) == Seq::<Seq<char>>::empty(),
    {
        let r = McpProvisionState {
            configs: Vec::new(),
            servers: Vec::new(),
            tools: Vec::new(),
            hooks: Vec::new(),
            inject_summary: Vec::new(),
            inject_and_run: Vec::new(),
            server_names: Vec::new(),
            tool_names: Vec::new(),
            errors: Vec::new(),
            registered_labels: Vec::new(),
        };
        assert(state_layer(r) =~= empty_layer());
        assert(r.hooks@ =~= all_hooks(connected_views(r.servers@)));
        assert(texts(r.server_names@) =~= connected_names(connected_views(r.servers@)));
        assert(texts(r.tool_names@) =~= names_of_tools(r.tools@));
        r
    }
}

impl McpProvisionState {
    /// Takes what connecting gave in place of what was there. No hook counts as registered:
    /// the hooks are new.
    pub fn replace_connection_result(&mut self, configs: Vec<ServerConfig>, layer: McpLayer)
        ensures
            final(self).configs == configs,
            state_layer(*final(self)) == layer@,
            is_flat(*final(self)),
            texts(final(self).registered_labels@) == Seq::<Seq<char>>::empty(),
    {
        let tools = collect_tools(&layer.servers);
        let tool_names = tool_names_of(&tools);
        let hooks = collect_hooks(&layer.servers);
        let server_names = collect_names(&layer.servers);
        *self =
        McpProvisionState {
            configs,
            servers: layer.servers,
            tools,
            hooks,
            inject_summary: layer.inject_summary,
            inject_and_run: layer.inject_and_run,
            server_names,
            tool_names,
            errors: layer.errors,
            registered_labels: Vec::new(),
        };
    }

    /// The servers as a layer, to lay a session's over it.
    pub fn layer(&self) -> (r: McpLayer)
        ensures
            r@ == state_layer(*self),
    {
        let none: Vec<String> = Vec::new();
        let mut r = McpLayer {
            servers: Vec::new(),
            inject_summary: Vec::new(),
            inject_and_run: Vec::new(),
            errors: Vec::new(),
        };
        append_servers(&mut r.servers, &self.servers, &none);
        append_names(&mut r.inject_summary, &self.inject_summary, &none);
        append_names(&mut r.inject_and_run, &self.inject_and_run, &none);
        append_errors(&mut r.errors, &self.errors, &none);
        proof {
            let l = state_layer(*self);
            lemma_servers_all_kept(l.servers, l.servers.len() as int);
            lemma_names_all_kept(l.inject_summary, l.inject_summary.len() as int);
            lemma_names_all_kept(l.inject_and_run, l.inject_and_run.len() as int);
            lemma_errors_all_kept(l.errors, l.errors.len() as int);
            assert(r@ =~= l);
        }
        r
    }

    /// Remembers that the live session has the hooks.
    pub fn mark_hooks_registered(&mut self)
        ensures
            forall|label: Seq<char>|
                texts(final(self).registered_labels@).contains(label) <==> texts(
                    old(self).registered_labels@,
                ).contains(label) || hook_labels(old(self).hooks@).contains(label),
            state_layer(*final(self)) == state_layer(*old(self)),
            final(self).hooks == old(self).hooks,
            final(self).configs == old(self).configs,
            is_flat(*old(self)) ==> is_flat(*final(self)),
    {
        let ghost before = texts(self.registered_labels@);
        let ghost labels = hook_labels(self.hooks@);
        let mut i: usize = 0;
        while i < self.hooks.len()
            invariant
                i <= self.hooks@.len(),
                labels == hook_labels(self.hooks@),
                forall|label: Seq<char>|
                    texts(self.registered_labels@).contains(label) <==> before.contains(label)
                        || labels.take(i as int).contains(label),
                state_layer(*self) == state_layer(*old(self)),
                self.hooks == old(self).hooks,
                self.configs == old(self).configs,
                is_flat(*old(self)) ==> is_flat(*self),
            decreases self.hooks@.len() - i,
        {
            let label = self.hooks[i].label.clone();
            let ghost so_far = texts(self.registered_labels@);
            let known = has_text(&self.registered_labels, label.as_str());
            if !known {
                self.registered_labels.push(label);
            }
            proof {
                assert(labels[i as int] == label@);
                assert(known == so_far.contains(label@));
                let now = texts(self.registered_labels@);
                let taken = labels.take(i as int);
                assert(labels.take(i + 1) =~= taken.push(label@));
                assert forall|l: Seq<char>|
                    now.contains(l) <==> before.contains(l) || taken.push(label@).contains(l) by {
                    assert(so_far.contains(l) <==> before.contains(l) || taken.contains(l));
                    lemma_push_contains(taken, label@, l);
                    lemma_push_contains(so_far, label@, l);
                }
            }
            i += 1;
        }
        assert(labels.take(i as int) =~= labels);
    }
}

proof fn lemma_push_contains(v: Seq<Seq<char>>, x: Seq<char>, l: Seq<char>)
    ensures
        v.push(x).contains(l) <==> v.contains(l) || x == l,
{
    if v.contains(l) {
        let j = choose|j: int| 0 <= j < v.len() && v[j] == l;
        assert(v.push(x)[j] == l);
    }
    assert(v.push(x)[v.len() as int] == x);
    if v.push(x).contains(l) && x != l {
        let j = choose|j: int| 0 <= j < v.push(x).len() && v.push(x)[j] == l;
        assert(v[j] == l);
    }
}

// Laws.

proof fn lemma_servers_kept(v: Seq<ConnectedView>, excluded: Seq<Seq<char>>, n: int, i: int)
    requires
        0 <= n <= v.len(),
        0 <= i < servers_kept(v, excluded, n).len(),
    ensures
        !excluded.contains(servers_kept(v, excluded, n)[i].name),
        exists|j: int| 0 <= j < n && v[j] == servers_kept(v, excluded, n)[i],
    decreases n,
{
    if n > 0 {
        let before = servers_kept(v, excluded, n - 1);
        if i < before.len() {
            lemma_servers_kept(v, excluded, n - 1, i);
        } else {
            assert(v[n - 1] == servers_kept(v, excluded, n)[i]);
        }
    }
}

proof fn lemma_names_kept(v: Seq<Seq<char>>, excluded: Seq<Seq<char>>, n: int, i: int)
    requires
        0 <= n <= v.len(),
        0 <= i < names_kept(v, excluded, n).len(),
    ensures
        !excluded.contains(names_kept(v, excluded, n)[i]),
    decreases n,
{
    if n > 0 && i < names_kept(v, excluded, n - 1).len() {
        lemma_names_kept(v, excluded, n - 1, i);
    }
}

proof fn lemma_errors_kept(
    v: Seq<(Seq<char>, Seq<char>)>,
    excluded: Seq<Seq<char>>,
    n: int,
    i: int,
)
    requires
        0 <= n <= v.len(),
        0 <= i < errors_kept(v, excluded, n).len(),
    ensures
        !excluded.contains(errors_kept(v, excluded, n)[i].0),
    decreases n,
{
    if n > 0 && i < errors_kept(v, excluded, n - 1).len() {
        lemma_errors_kept(v, excluded, n - 1, i);
    }
}

proof fn lemma_kept_names_differ(v: Seq<ConnectedView>, excluded: Seq<Seq<char>>, n: int)
    requires
        0 <= n <= v.len(),
        connected_names_differ(v),
    ensures
        connected_names_differ(servers_kept(v, excluded, n)),
    decreases n,
{
    if n > 0 {
        lemma_kept_names_differ(v, excluded, n - 1);
        let before = servers_kept(v, excluded, n - 1);
        assert forall|i: int| 0 <= i < before.len() implies (#[trigger] before[i]).name != v[n
            - 1].name by {
            lemma_servers_kept(v, excluded, n - 1, i);
            let j = choose|j: int| 0 <= j < n - 1 && v[j] == before[i];
            assert(v[j].name != v[n - 1].name);
        }
    }
}

/// Nothing of the daemon is left under a name that the session has asked for, neither a server
/// nor a way to treat its notifications nor a failure: a session never falls back to the
/// daemon's server where its own failed.
pub proof fn law_session_servers_replace_the_daemons(
    daemon: LayerView,
    names: Seq<Seq<char>>,
    overlay: LayerView,
)
    ensures
        ({
            let merged = merged_layers(daemon, names, overlay);
            &&& forall|i: int|
                0 <= i < merged.servers.len() && names.contains(
                    (#[trigger] merged.servers[i]).name,
                ) ==> overlay.servers.contains(merged.servers[i])
            &&& forall|i: int|
                0 <= i < merged.inject_summary.len() && names.contains(
                    #[trigger] merged.inject_summary[i],
                ) ==> overlay.inject_summary.contains(merged.inject_summary[i])
            &&& forall|i: int|
                0 <= i < merged.inject_and_run.len() && names.contains(
                    #[trigger] merged.inject_and_run[i],
                ) ==> overlay.inject_and_run.contains(merged.inject_and_run[i])
            &&& forall|i: int|
                0 <= i < merged.errors.len() && names.contains((#[trigger] merged.errors[i]).0)
                    ==> overlay.errors.contains(merged.errors[i])
        }),
{
    let merged = merged_layers(daemon, names, overlay);
    let servers = servers_kept(daemon.servers, names, daemon.servers.len() as int);
    let summaries = names_kept(daemon.inject_summary, names, daemon.inject_summary.len() as int);
    let runs = names_kept(daemon.inject_and_run, names, daemon.inject_and_run.len() as int);
    let errors = errors_kept(daemon.errors, names, daemon.errors.len() as int);
    assert forall|i: int|
        0 <= i < merged.servers.len() && names.contains(
            (#[trigger] merged.servers[i]).name,
        ) implies overlay.servers.contains(merged.servers[i]) by {
        if i < servers.len() {
            lemma_servers_kept(daemon.servers, names, daemon.servers.len() as int, i);
        } else {
            assert(merged.servers[i] == overlay.servers[i - servers.len()]);
        }
    }
    assert forall|i: int|
        0 <= i < merged.inject_summary.len() && names.contains(
            #[trigger] merged.inject_summary[i],
        ) implies overlay.inject_summary.contains(merged.inject_summary[i]) by {
        if i < summaries.len() {
            lemma_names_kept(daemon.inject_summary, names, daemon.inject_summary.len() as int, i);
        } else {
            assert(merged.inject_summary[i] == overlay.inject_summary[i - summaries.len()]);
        }
    }
    assert forall|i: int|
        0 <= i < merged.inject_and_run.len() && names.contains(
            #[trigger] merged.inject_and_run[i],
        ) implies overlay.inject_and_run.contains(merged.inject_and_run[i]) by {
        if i < runs.len() {
            lemma_names_kept(daemon.inject_and_run, names, daemon.inject_and_run.len() as int, i);
        } else {
            assert(merged.inject_and_run[i] == overlay.inject_and_run[i - runs.len()]);
        }
    }
    assert forall|i: int|
        0 <= i < merged.errors.len() && names.contains(
            (#[trigger] merged.errors[i]).0,
        ) implies overlay.errors.contains(merged.errors[i]) by {
        if i < errors.len() {
            lemma_errors_kept(daemon.errors, names, daemon.errors.len() as int, i);
        } else {
            assert(merged.errors[i] == overlay.errors[i - errors.len()]);
        }
    }
}

/// Whether no two connected servers share a name.
pub open spec fn connected_names_differ(v: Seq<ConnectedView>) -> bool {
    forall|i: int, j: int|
        0 <= i < j < v.len() ==> (#[trigger] v[i]).name != (#[trigger] v[j]).name
}

/// The names of configured servers.
pub open spec fn configured_names(v: Seq<ServerView>) -> Seq<Seq<char>> {
    Seq::new(v.len(), |i: int| v[i].name)
}

proof fn lemma_connected_in(v: Seq<ServerView>, results: Seq<ConnectResult>, n: int)
    requires
        0 <= n <= v.len(),
    ensures
        forall|i: int|
            0 <= i < connected_in(v, results, n).len() ==> exists|j: int|
                0 <= j < n && #[trigger] v[j].name == (#[trigger] connected_in(
                    v,
                    results,
                    n,
                )[i]).name,
        names_differ(v) ==> connected_names_differ(connected_in(v, results, n)),
    decreases n,
{
    if n > 0 && n <= results.len() {
        lemma_connected_in(v, results, n - 1);
        let before = connected_in(v, results, n - 1);
        let after = connected_in(v, results, n);
        assert forall|i: int| 0 <= i < after.len() implies exists|j: int|
            0 <= j < n && #[trigger] v[j].name == (#[trigger] after[i]).name by {
            if i < before.len() {
                let j = choose|j: int| 0 <= j < n - 1 && #[trigger] v[j].name == before[i].name;
                assert(v[j].name == after[i].name);
            } else {
                assert(v[n - 1].name == after[i].name);
            }
        }
        if names_differ(v) {
            assert forall|i: int, k: int| 0 <= i < k < after.len() implies (
            #[trigger] after[i]).name != (#[trigger] after[k]).name by {
                if k == before.len() {
                    let j = choose|j: int|
                        0 <= j < n - 1 && #[trigger] v[j].name == before[i].name;
                    assert(v[j].name != v[n - 1].name);
                }
            }
        }
    }
}

/// One session never runs two servers under one name: where the configured names of the daemon
/// differ and those of the session differ, so do the names of all the servers that the session
/// has connections to, whichever of them connected.
pub proof fn law_one_server_runs_under_a_name(
    daemon: Seq<ServerView>,
    daemon_results: Seq<ConnectResult>,
    session: Seq<ServerView>,
    session_results: Seq<ConnectResult>,
)
    requires
        names_differ(daemon),
        names_differ(session),
    ensures
        connected_names_differ(
            merged_layers(
                connected_layer(daemon, daemon_results),
                configured_names(session),
                connected_layer(session, session_results),
            ).servers,
        ),
{
    let below = connected_layer(daemon, daemon_results).servers;
    let over = connected_layer(session, session_results).servers;
    let names = configured_names(session);
    lemma_connected_in(daemon, daemon_results, daemon.len() as int);
    lemma_connected_in(session, session_results, session.len() as int);
    lemma_kept_names_differ(below, names, below.len() as int);
    let kept = servers_kept(below, names, below.len() as int);
    let all = kept + over;
    assert forall|i: int, j: int| 0 <= i < j < all.len() implies (#[trigger] all[i]).name != (
    #[trigger] all[j]).name by {
        if i < kept.len() && j >= kept.len() {
            lemma_servers_kept(below, names, below.len() as int, i);
            let server = over[j - kept.len()];
            let k = choose|k: int|
                0 <= k < session.len() && #[trigger] session[k].name == server.name;
            assert(names[k] == server.name);
        } else if i >= kept.len() {
            assert(all[i] == over[i - kept.len()]);
            assert(all[j] == over[j - kept.len()]);
        }
    }
}

proof fn lemma_flagged(v: Seq<ServerView>, results: Seq<ConnectResult>, run: bool, n: int, k: int)
    requires
        0 <= n <= v.len(),
        0 <= k < flagged(v, results, run, n).len(),
    ensures
        connected_names(connected_in(v, results, n)).contains(flagged(v, results, run, n)[k]),
    decreases n,
{
    if n > 0 && n <= results.len() {
        let before = flagged(v, results, run, n - 1);
        let now = connected_names(connected_in(v, results, n));
        let name = flagged(v, results, run, n)[k];
        if k < before.len() {
            lemma_flagged(v, results, run, n - 1, k);
            let names = connected_names(connected_in(v, results, n - 1));
            let j = choose|j: int| 0 <= j < names.len() && names[j] == name;
            assert(now[j] == name);
        } else {
            assert(now[now.len() - 1] == name);
        }
    }
}

/// Notifications go into the chat from connected servers alone.
pub proof fn law_only_connected_servers_inject(v: Seq<ServerView>, results: Seq<ConnectResult>)
    ensures
        ({
            let layer = connected_layer(v, results);
            let names = connected_names(layer.servers);
            &&& forall|i: int|
                0 <= i < layer.inject_summary.len() ==> names.contains(
                    #[trigger] layer.inject_summary[i],
                )
            &&& forall|i: int|
                0 <= i < layer.inject_and_run.len() ==> names.contains(
                    #[trigger] layer.inject_and_run[i],
                )
        }),
{
    let n = v.len() as int;
    let layer = connected_layer(v, results);
    assert forall|i: int| 0 <= i < layer.inject_summary.len() implies connected_names(
        layer.servers,
    ).contains(#[trigger] layer.inject_summary[i]) by {
        lemma_flagged(v, results, false, n, i);
    }
    assert forall|i: int| 0 <= i < layer.inject_and_run.len() implies connected_names(
        layer.servers,
    ).contains(#[trigger] layer.inject_and_run[i]) by {
        lemma_flagged(v, results, true, n, i);
    }
}

/// Without a session's servers, a session has those of the daemon.
pub proof fn law_empty_overlay_changes_nothing(daemon: LayerView)
    ensures
        merged_layers(daemon, Seq::empty(), empty_layer()) == daemon,
{
    lemma_nothing_excluded(daemon);
}

/// The diagnostic of a server that failed is read back as its name and its error, where the
/// name does not itself hold the words between them.
pub proof fn law_failure_diagnostics_round_trip(name: Seq<char>, error: Seq<char>)
    requires
        forall|i: int| !occurs_at(name, "' failed: "@, i),
    ensures
        diagnostic_parts(failure_text(name, error)) == (name, error),
{
    let head = "mcp server '"@;
    let sep = "' failed: "@;
    reveal_strlit("' failed: ");
    let whole = failure_text(name, error);
    let rest = name + sep + error;
    assert(whole =~= head + rest);
    assert(whole.skip(head.len() as int) =~= rest);
    assert(whole.take(head.len() as int) =~= head);
    assert(occurs_at(rest, sep, name.len() as int)) by {
        assert(rest.subrange(name.len() as int, (name.len() + sep.len()) as int) =~= sep);
    }
    lemma_find_from(rest, sep, 0);
    let at = find_from(rest, sep, 0)->0;
    if at < name.len() {
        if at + sep.len() <= name.len() {
            assert(name.subrange(at, at + sep.len()) =~= rest.subrange(at, at + sep.len()));
            assert(occurs_at(name, sep, at));
        } else {
            let k = name.len() - at;
            assert(rest.subrange(at, at + sep.len())[k] == rest[name.len() as int]);
            assert(rest[name.len() as int] == sep[0]);
        }
    }
    assert(rest.take(name.len() as int) =~= name);
    assert(rest.skip((name.len() + sep.len()) as int) =~= error);
}

proof fn lemma_filtered(
    servers: Seq<ConnectedView>,
    names: Seq<Seq<char>>,
    errors: Seq<(Seq<char>, Seq<char>)>,
    excluded: Seq<Seq<char>>,
    n: int,
)
    requires
        0 <= n,
    ensures
        n <= servers.len() ==> servers_kept(servers, excluded, n) == servers.take(n).filter(
            |s: ConnectedView| !excluded.contains(s.name),
        ),
        n <= names.len() ==> names_kept(names, excluded, n) == names.take(n).filter(
            |x: Seq<char>| !excluded.contains(x),
        ),
        n <= errors.len() ==> errors_kept(errors, excluded, n) == errors.take(n).filter(
            |e: (Seq<char>, Seq<char>)| !excluded.contains(e.0),
        ),
    decreases n,
{
    reveal(Seq::filter);
    if n > 0 {
        lemma_filtered(servers, names, errors, excluded, n - 1);
        if n <= servers.len() {
            assert(servers.take(n).drop_last() =~= servers.take(n - 1));
        }
        if n <= names.len() {
            assert(names.take(n).drop_last() =~= names.take(n - 1));
        }
        if n <= errors.len() {
            assert(errors.take(n).drop_last() =~= errors.take(n - 1));
        }
    }
}

/// A session has the servers of the daemon that it has not replaced, in their order, and behind
/// them all of its own; the same holds of what is injected and of what failed.
pub proof fn law_sessions_keep_what_they_do_not_replace(
    daemon: LayerView,
    names: Seq<Seq<char>>,
    overlay: LayerView,
)
    ensures
        merged_layers(daemon, names, overlay) == (LayerView {
            servers: daemon.servers.filter(|s: ConnectedView| !names.contains(s.name))
                + overlay.servers,
            inject_summary: daemon.inject_summary.filter(|x: Seq<char>| !names.contains(x))
                + overlay.inject_summary,
            inject_and_run: daemon.inject_and_run.filter(|x: Seq<char>| !names.contains(x))
                + overlay.inject_and_run,
            errors: daemon.errors.filter(|e: (Seq<char>, Seq<char>)| !names.contains(e.0))
                + overlay.errors,
        }),
{
    let d = daemon;
    lemma_filtered(d.servers, d.inject_summary, d.errors, names, d.servers.len() as int);
    lemma_filtered(d.servers, d.inject_summary, d.errors, names, d.inject_summary.len() as int);
    lemma_filtered(d.servers, d.inject_summary, d.errors, names, d.errors.len() as int);
    lemma_filtered(d.servers, d.inject_and_run, d.errors, names, d.inject_and_run.len() as int);
    assert(d.servers.take(d.servers.len() as int) =~= d.servers);
    assert(d.inject_summary.take(d.inject_summary.len() as int) =~= d.inject_summary);
    assert(d.inject_and_run.take(d.inject_and_run.len() as int) =~= d.inject_and_run);
    assert(d.errors.take(d.errors.len() as int) =~= d.errors);
}

proof fn lemma_connect_prefix(v: Seq<ServerView>, results: Seq<ConnectResult>, m: int, n: int)
    requires
        0 <= m <= n <= v.len(),
        v.len() == results.len(),
    ensures
        connected_in(v, results, m).is_prefix_of(connected_in(v, results, n)),
        failures_in(v, results, m).is_prefix_of(failures_in(v, results, n)),
        flagged(v, results, true, m).is_prefix_of(flagged(v, results, true, n)),
        flagged(v, results, false, m).is_prefix_of(flagged(v, results, false, n)),
        connected_in(v, results, n).len() + failures_in(v, results, n).len() == n,
    decreases n,
{
    if n > 0 {
        if m < n {
            lemma_connect_prefix(v, results, m, n - 1);
        } else {
            lemma_connect_prefix(v, results, n - 1, n - 1);
        }
    }
}

proof fn lemma_prefix_contains<T>(a: Seq<T>, b: Seq<T>, i: int)
    requires
        a.is_prefix_of(b),
        0 <= i < a.len(),
    ensures
        b.contains(a[i]),
        b[i] == a[i],
{
    assert(b.take(a.len() as int)[i] == b[i]);
}

/// Each server that was asked for is either connected, with its own tools and its own hook, or
/// told of with its own error, and no more; what it injects counts where it is connected and
/// asks for it.
pub proof fn law_each_server_connects_or_is_told_of(
    v: Seq<ServerView>,
    results: Seq<ConnectResult>,
    i: int,
)
    requires
        v.len() == results.len(),
        0 <= i < v.len(),
    ensures
        ({
            let layer = connected_layer(v, results);
            &&& layer.servers.len() + layer.errors.len() == v.len()
            &&& results[i] matches Ok((tools, hook)) ==> layer.servers.contains(
                ConnectedView { name: v[i].name, tools: tools@, hook },
            )
            &&& results[i] is Ok && v[i].inject_summary ==> layer.inject_summary.contains(v[i].name)
            &&& results[i] is Ok && v[i].inject_and_run ==> layer.inject_and_run.contains(v[i].name)
            &&& (results[i] matches Err(e) && (forall|j: int|
                !occurs_at(v[i].name, "' failed: "@, j))) ==> layer.errors.contains(
                (v[i].name, results[i]->Err_0@),
            )
        }),
{
    let n = v.len() as int;
    let layer = connected_layer(v, results);
    lemma_connect_prefix(v, results, i + 1, n);
    match results[i] {
        Ok((tools, hook)) => {
            let c = connected_in(v, results, i + 1);
            lemma_prefix_contains(c, layer.servers, c.len() - 1);
            if v[i].inject_summary {
                let f = flagged(v, results, false, i + 1);
                lemma_prefix_contains(f, layer.inject_summary, f.len() - 1);
            }
            if v[i].inject_and_run {
                let f = flagged(v, results, true, i + 1);
                lemma_prefix_contains(f, layer.inject_and_run, f.len() - 1);
            }
        },
        Err(e) => {
            let f = failures_in(v, results, i + 1);
            let all = failures_in(v, results, n);
            lemma_prefix_contains(f, all, f.len() - 1);
            assert(all[f.len() - 1] == failure_text(v[i].name, e@));
            if forall|j: int| !occurs_at(v[i].name, "' failed: "@, j) {
                law_failure_diagnostics_round_trip(v[i].name, e@);
                assert(layer.errors[f.len() - 1] == (v[i].name, e@));
            }
        },
    }
}

proof fn lemma_flags_are_asked_for(
    v: Seq<ServerView>,
    results: Seq<ConnectResult>,
    run: bool,
    n: int,
    name: Seq<char>,
)
    requires
        0 <= n <= v.len(),
        v.len() == results.len(),
        flagged(v, results, run, n).contains(name),
    ensures
        exists|i: int|
            0 <= i < n && (#[trigger] v[i]).name == name && results[i] is Ok && (if run {
                v[i].inject_and_run
            } else {
                v[i].inject_summary
            }),
    decreases n,
{
    if n > 0 {
        let before = flagged(v, results, run, n - 1);
        let all = flagged(v, results, run, n);
        let k = choose|k: int| 0 <= k < all.len() && all[k] == name;
        if k < before.len() {
            assert(before[k] == name);
            lemma_flags_are_asked_for(v, results, run, n - 1, name);
        } else {
            assert(v[n - 1].name == name);
        }
    }
}

/// Nothing is injected for a server that does not ask for it or that is not connected.
pub proof fn law_only_what_is_asked_for_is_injected(
    v: Seq<ServerView>,
    results: Seq<ConnectResult>,
    name: Seq<char>,
)
    requires
        v.len() == results.len(),
    ensures
        connected_layer(v, results).inject_summary.contains(name) ==> exists|i: int|
            0 <= i < v.len() && (#[trigger] v[i]).name == name && results[i] is Ok
                && v[i].inject_summary,
        connected_layer(v, results).inject_and_run.contains(name) ==> exists|i: int|
            0 <= i < v.len() && (#[trigger] v[i]).name == name && results[i] is Ok
                && v[i].inject_and_run,
{
    let n = v.len() as int;
    if connected_layer(v, results).inject_summary.contains(name) {
        lemma_flags_are_asked_for(v, results, false, n, name);
    }
    if connected_layer(v, results).inject_and_run.contains(name) {
        lemma_flags_are_asked_for(v, results, true, n, name);
    }
}

proof fn lemma_tools_listed(v: Seq<ConnectedView>, n: int, i: int, k: int)
    requires
        0 <= i < n <= v.len(),
        0 <= k < v[i].tools.len(),
    ensures
        all_tools(v, n).contains(v[i].tools[k]),
    decreases n,
{
    let before = all_tools(v, n - 1);
    let all = all_tools(v, n);
    if i == n - 1 {
        assert(all[before.len() + k] == v[i].tools[k]);
    } else {
        lemma_tools_listed(v, n - 1, i, k);
        let j = choose|j: int| 0 <= j < before.len() && before[j] == v[i].tools[k];
        assert(all[j] == v[i].tools[k]);
    }
}

/// The tools of a layer are those of all its servers, those of a later server behind those of an
/// earlier one.
pub proof fn law_all_tools_are_listed(a: Seq<ConnectedView>, b: ConnectedView, i: int, k: int)
    ensures
        all_tools(a.push(b), a.len() as int + 1) == all_tools(a, a.len() as int) + b.tools,
        0 <= i < a.len() && 0 <= k < a[i].tools.len() ==> all_tools(a, a.len() as int).contains(
            a[i].tools[k],
        ),
{
    lemma_tools_prefix(a, b, a.len() as int);
    if 0 <= i < a.len() && 0 <= k < a[i].tools.len() {
        lemma_tools_listed(a, a.len() as int, i, k);
    }
}

proof fn lemma_tools_prefix(a: Seq<ConnectedView>, b: ConnectedView, n: int)
    requires
        0 <= n <= a.len(),
    ensures
        all_tools(a.push(b), n) == all_tools(a, n),
    decreases n,
{
    if n > 0 {
        lemma_tools_prefix(a, b, n - 1);
    }
}

/// A note on a configuration that could not be read is told under the file that it is about, and
/// a note of another form as it stands.
pub proof fn law_configuration_notes_name_their_file(
    label: Seq<char>,
    path: Seq<char>,
    message: Seq<char>,
    other: Seq<char>,
)
    requires
        find_from(label + ", "@ + path + "): "@ + message, "): "@, 0) == Some(
            (label + ", "@ + path).len() as int,
        ),
        find_from(label + ", "@ + path, ", "@, 0) == Some(label.len() as int),
        after_prefix(other, "mcp server '"@) is None,
        after_prefix(other, "mcp config ("@) is None,
    ensures
        diagnostic_parts("mcp config ("@ + (label + ", "@ + path + "): "@ + message)) == (
            "mcp.toml ("@ + label + ")"@,
            message,
        ),
        diagnostic_parts(other) == ("mcp"@, other),
{
    let rest = label + ", "@ + path + "): "@ + message;
    let whole = "mcp config ("@ + rest;
    reveal_strlit("mcp config (");
    reveal_strlit("mcp server '");
    law_prefixes_are_taken_off("mcp config ("@, rest, whole);
    if after_prefix(whole, "mcp server '"@) is Some {
        assert(whole.subrange(0, 12)[4] == whole[4]);
        assert("mcp server '"@[4] == 's' && "mcp config ("@[4] == 'c');
    }
    let head = label + ", "@ + path;
    assert(rest.take(head.len() as int) =~= head);
    assert(rest.skip(head.len() as int + "): "@.len()) =~= message);
    assert(head.take(label.len() as int) =~= label);
}

} // verus!
