//! MCP servers: their configuration, and what a connection to one needs.
//!
//! The caller reads the files and makes the connections.

use crate::order::has_text;
use crate::text::{
    copy_texts, is_blank, lemma_texts_empty, lemma_texts_push, opt_text, owned, texts, trimmed,
};
use crate::user_input::copy_opt;
use vstd::prelude::*;

verus! {

broadcast use {lemma_texts_push, lemma_texts_empty};

/// A file of servers.
#[derive(Debug)]
pub struct McpConfig {
    pub server: Vec<ServerConfig>,
}

impl Default for McpConfig {
    fn default() -> (r: McpConfig)
        ensures
            r.server@ == Seq::<ServerConfig>::empty(),
    {
        McpConfig { server: Vec::new() }
    }
}

/// How a server is reached.
#[derive(Clone, Copy, Debug, PartialEq, Eq, Structural)]
pub enum ServerKind {
    Stdio,
    StreamableHttp,
}

impl Default for ServerKind {
    fn default() -> (r: ServerKind)
        ensures
            r is Stdio,
    {
        ServerKind::Stdio
    }
}

#[derive(Debug)]
pub struct HttpAuthConfig {
    pub kind: String,
    pub token_keychain_ref: Option<String>,
}

#[derive(Clone, Copy, Debug, PartialEq, Eq, Structural)]
pub struct ReconnectConfig {
    pub initial_ms: Option<u64>,
    pub max_ms: Option<u64>,
    pub max_attempts: Option<usize>,
}

/// One server.
#[derive(Debug)]
pub struct ServerConfig {
    pub name: String,
    pub kind: ServerKind,
    pub command: Option<String>,
    pub args: Vec<String>,
    pub endpoint: Option<String>,
    pub auth: Option<HttpAuthConfig>,
    pub request_timeout_ms: Option<u64>,
    pub sse_idle_timeout_ms: Option<u64>,
    pub body_cap_bytes: Option<usize>,
    pub reconnect: Option<ReconnectConfig>,
    /// Whether what the server pushes goes straight into the chat.
    pub inject_summary: bool,
    /// Whether what the server pushes also starts a turn of the model.
    pub inject_and_run: bool,
}

/// The content of a `ServerConfig`.
pub struct ServerView {
    pub name: Seq<char>,
    pub kind: ServerKind,
    pub command: Option<Seq<char>>,
    pub args: Seq<Seq<char>>,
    pub endpoint: Option<Seq<char>>,
    pub auth: Option<HttpAuthConfig>,
    pub request_timeout_ms: Option<u64>,
    pub sse_idle_timeout_ms: Option<u64>,
    pub body_cap_bytes: Option<usize>,
    pub reconnect: Option<ReconnectConfig>,
    pub inject_summary: bool,
    pub inject_and_run: bool,
}

impl View for ServerConfig {
    type V = ServerView;

    open spec fn view(&self) -> ServerView {
        ServerView {
            name: self.name@,
            kind: self.kind,
            command: opt_text(self.command),
            args: texts(self.args@),
            endpoint: opt_text(self.endpoint),
            auth: self.auth,
            request_timeout_ms: self.request_timeout_ms,
            sse_idle_timeout_ms: self.sse_idle_timeout_ms,
            body_cap_bytes: self.body_cap_bytes,
            reconnect: self.reconnect,
            inject_summary: self.inject_summary,
            inject_and_run: self.inject_and_run,
        }
    }
}

impl HttpAuthConfig {
    pub fn copy(&self) -> (r: HttpAuthConfig)
        ensures
            r == *self,
    {
        HttpAuthConfig {
            kind: self.kind.clone(),
            token_keychain_ref: copy_opt(&self.token_keychain_ref),
        }
    }
}

fn copy_auth(o: &Option<HttpAuthConfig>) -> (r: Option<HttpAuthConfig>)
    ensures
        r == *o,
{
    match o {
        Some(a) => Some(a.copy()),
        None => None,
    }
}

impl ServerConfig {
    pub fn copy(&self) -> (r: ServerConfig)
        ensures
            r@ == self@,
    {
        ServerConfig {
            name: self.name.clone(),
            kind: self.kind,
            command: copy_opt(&self.command),
            args: copy_texts(&self.args),
            endpoint: copy_opt(&self.endpoint),
            auth: copy_auth(&self.auth),
            request_timeout_ms: self.request_timeout_ms,
            sse_idle_timeout_ms: self.sse_idle_timeout_ms,
            body_cap_bytes: self.body_cap_bytes,
            reconnect: self.reconnect,
            inject_summary: self.inject_summary,
            inject_and_run: self.inject_and_run,
        }
    }
}

pub open spec fn server_views(v: Seq<ServerConfig>) -> Seq<ServerView> {
    Seq::new(v.len(), |i: int| v[i]@)
}

// Configuration files.

/// What the reading of a file gave.
#[derive(Debug)]
pub enum ConfigRead {
    Missing,
    ReadFailed(String),
    ParseFailed(String),
    Parsed(McpConfig),
}

/// What is noted of the reading of a file.
pub open spec fn config_notes(path: Seq<char>, label: Seq<char>, read: ConfigRead) -> Seq<Seq<char>> {
    match read {
        ConfigRead::ReadFailed(e) => seq![
            "mcp config ("@ + label + ", "@ + path + "): read failed: "@ + e@,
        ],
        ConfigRead::ParseFailed(e) => seq![
            "mcp config ("@ + label + ", "@ + path + "): parse failed: "@ + e@,
        ],
        _ => Seq::empty(),
    }
}

/// The position of the first server of a name.
pub open spec fn server_pos(v: Seq<ServerView>, name: Seq<char>, from: int) -> Option<int>
    decreases v.len() - from,
{
    if from < 0 || from >= v.len() {
        None
    } else if v[from].name == name {
        Some(from)
    } else {
        server_pos(v, name, from + 1)
    }
}

/// A list with a server in the place of the one of the same name, or at the end.
pub open spec fn overridden(v: Seq<ServerView>, s: ServerView) -> Seq<ServerView> {
    match server_pos(v, s.name, 0) {
        Some(i) => v.update(i, s),
        None => v.push(s),
    }
}

/// A list overridden by the first `n` servers of another.
pub open spec fn overridden_all(v: Seq<ServerView>, more: Seq<ServerView>, n: int) -> Seq<ServerView>
    decreases n,
{
    if n <= 0 || n > more.len() {
        v
    } else {
        overridden(overridden_all(v, more, n - 1), more[n - 1])
    }
}

/// A list overridden by a file that was read.
pub open spec fn with_file(v: Seq<ServerView>, read: ConfigRead) -> Seq<ServerView> {
    match read {
        ConfigRead::Parsed(c) => overridden_all(v, server_views(c.server@), c.server@.len() as int),
        _ => v,
    }
}

fn find_server(v: &Vec<ServerConfig>, name: &str) -> (r: Option<usize>)
    ensures
        match r {
            Some(i) => server_pos(server_views(v@), name@, 0) == Some(i as int) && i < v@.len(),
            None => server_pos(server_views(v@), name@, 0) is None,
        },
{
    let ghost views = server_views(v@);
    let mut i: usize = 0;
    while i < v.len()
        invariant
            i <= v@.len(),
            views == server_views(v@),
            server_pos(views, name@, 0) == server_pos(views, name@, i as int),
        decreases v@.len() - i,
    {
        if v[i].name.as_str().eq(name) {
            return Some(i);
        }
        i += 1;
    }
    None
}

fn override_all(configs: &mut Vec<ServerConfig>, more: &Vec<ServerConfig>)
    ensures
        server_views(final(configs)@) == overridden_all(
            server_views(old(configs)@),
            server_views(more@),
            more@.len() as int,
        ),
{
    let ghost base = server_views(configs@);
    let ghost over = server_views(more@);
    let mut i: usize = 0;
    while i < more.len()
        invariant
            i <= more@.len(),
            over == server_views(more@),
            server_views(configs@) == overridden_all(base, over, i as int),
        decreases more@.len() - i,
    {
        let ghost before = server_views(configs@);
        let s = more[i].copy();
        match find_server(configs, s.name.as_str()) {
            Some(at) => {
                configs.set(at, s);
                assert(server_views(configs@) =~= before.update(at as int, s@));
            },
            None => {
                configs.push(s);
                assert(server_views(configs@) =~= before.push(s@));
            },
        }
        i += 1;
    }
}

fn push_config_notes(path: &str, label: &str, read: &ConfigRead, diagnostics: &mut Vec<String>)
    ensures
        texts(final(diagnostics)@) == texts(old(diagnostics)@) + config_notes(path@, label@, *read),
{
    let ghost before = texts(diagnostics@);
    match read {
        ConfigRead::ReadFailed(e) => {
            let mut m = owned("mcp config (");
            m.push_str(label);
            m.push_str(", ");
            m.push_str(path);
            m.push_str("): read failed: ");
            m.push_str(e.as_str());
            diagnostics.push(m);
            assert(before.push(m@) =~= before + seq![m@]);
        },
        ConfigRead::ParseFailed(e) => {
            let mut m = owned("mcp config (");
            m.push_str(label);
            m.push_str(", ");
            m.push_str(path);
            m.push_str("): parse failed: ");
            m.push_str(e.as_str());
            diagnostics.push(m);
            assert(before.push(m@) =~= before + seq![m@]);
        },
        _ => {
            assert(before + Seq::<Seq<char>>::empty() =~= before);
        },
    }
}

/// The servers to connect to, from the files that were read: those of the user, overridden by
/// those of the project, and what was noted.
pub fn merge_configs(
    user_path: &str,
    user: &ConfigRead,
    project_path: &str,
    project: &ConfigRead,
) -> (r: (Vec<ServerConfig>, Vec<String>))
    ensures
        server_views(r.0@) == with_file(with_file(Seq::empty(), *user), *project),
        texts(r.1@) == config_notes(user_path@, "user"@, *user) + config_notes(
            project_path@,
            "project"@,
            *project,
        ),
{
    let mut configs: Vec<ServerConfig> = Vec::new();
    let mut diagnostics: Vec<String> = Vec::new();
    assert(server_views(configs@) =~= Seq::empty());
    push_config_notes(user_path, "user", user, &mut diagnostics);
    assert(texts(diagnostics@) =~= config_notes(user_path@, "user"@, *user));
    if let ConfigRead::Parsed(c) = user {
        override_all(&mut configs, &c.server);
    }
    push_config_notes(project_path, "project", project, &mut diagnostics);
    if let ConfigRead::Parsed(c) = project {
        override_all(&mut configs, &c.server);
    }
    (configs, diagnostics)
}

/// A server as it comes over the wire.
#[derive(Debug)]
pub struct WireServer {
    pub name: String,
    pub kind: String,
    pub command: Option<String>,
    pub args: Vec<String>,
    pub endpoint: Option<String>,
    pub auth: Option<HttpAuthConfig>,
    pub request_timeout_ms: Option<u64>,
    pub sse_idle_timeout_ms: Option<u64>,
    pub body_cap_bytes: Option<u64>,
    pub reconnect: Option<WireReconnect>,
    pub inject_summary: bool,
    pub inject_and_run: bool,
}

#[derive(Clone, Copy, Debug, PartialEq, Eq, Structural)]
pub struct WireReconnect {
    pub initial_ms: Option<u64>,
    pub max_ms: Option<u64>,
    pub max_attempts: Option<u64>,
}

pub open spec fn as_size(o: Option<u64>) -> Option<usize> {
    match o {
        Some(n) => Some(n as usize),
        None => None,
    }
}

fn to_size(o: Option<u64>) -> (r: Option<usize>)
    ensures
        r == as_size(o),
{
    match o {
        Some(n) => Some(n as usize),
        None => None,
    }
}

/// The configuration of a server that came over the wire. A kind that is not known counts as
/// a server on standard input and output.
pub fn server_config_from_wire(server: &WireServer) -> (r: ServerConfig)
    ensures
        r@ == (ServerView {
            name: server.name@,
            kind: if server.kind@ == "streamable_http"@ {
                ServerKind::StreamableHttp
            } else {
                ServerKind::Stdio
            },
            command: opt_text(server.command),
            args: texts(server.args@),
            endpoint: opt_text(server.endpoint),
            auth: server.auth,
            request_timeout_ms: server.request_timeout_ms,
            sse_idle_timeout_ms: server.sse_idle_timeout_ms,
            body_cap_bytes: as_size(server.body_cap_bytes),
            reconnect: match server.reconnect {
                Some(w) => Some(
                    (ReconnectConfig {
                        initial_ms: w.initial_ms,
                        max_ms: w.max_ms,
                        max_attempts: as_size(w.max_attempts),
                    }),
                ),
                None => None,
            },
            inject_summary: server.inject_summary,
            inject_and_run: server.inject_and_run,
        }),
{
    ServerConfig {
        name: server.name.clone(),
        kind: if server.kind.as_str().eq("streamable_http") {
            ServerKind::StreamableHttp
        } else {
            ServerKind::Stdio
        },
        command: copy_opt(&server.command),
        args: copy_texts(&server.args),
        endpoint: copy_opt(&server.endpoint),
        auth: copy_auth(&server.auth),
        request_timeout_ms: server.request_timeout_ms,
        sse_idle_timeout_ms: server.sse_idle_timeout_ms,
        body_cap_bytes: to_size(server.body_cap_bytes),
        reconnect: match server.reconnect {
            Some(w) => Some(
                ReconnectConfig {
                    initial_ms: w.initial_ms,
                    max_ms: w.max_ms,
                    max_attempts: to_size(w.max_attempts),
                },
            ),
            None => None,
        },
        inject_summary: server.inject_summary,
        inject_and_run: server.inject_and_run,
    }
}

/// The names of the first `n` servers.
pub open spec fn config_names(v: Seq<ServerView>, n: int) -> Seq<Seq<char>>
    decreases n,
{
    if n <= 0 || n > v.len() {
        Seq::empty()
    } else {
        config_names(v, n - 1).push(v[n - 1].name)
    }
}

/// What is wrong with the names of the first `n` servers: the first that is blank or that an
/// earlier server bears.
pub open spec fn name_fault(v: Seq<ServerView>, n: int) -> Option<Seq<char>>
    decreases n,
{
    if n <= 0 || n > v.len() {
        None
    } else {
        match name_fault(v, n - 1) {
            Some(m) => Some(m),
            None => if trimmed(v[n - 1].name).len() == 0 {
                Some("mcp_servers: server name must not be empty"@)
            } else if config_names(v, n - 1).contains(v[n - 1].name) {
                Some("mcp_servers: duplicate server name '"@ + v[n - 1].name + "'"@)
            } else {
                None
            },
        }
    }
}

proof fn lemma_name_fault(v: Seq<ServerView>, n: int, m: int)
    requires
        0 <= n <= m <= v.len(),
        name_fault(v, n) is Some,
    ensures
        name_fault(v, m) == name_fault(v, n),
    decreases m - n,
{
    if n < m {
        lemma_name_fault(v, n, m - 1);
    }
}

/// Whether every server has a name of its own that is not blank.
pub fn validate_unique_names(configs: &Vec<ServerConfig>) -> (r: Result<(), String>)
    ensures
        match name_fault(server_views(configs@), configs@.len() as int) {
            None => r is Ok,
            Some(m) => r matches Err(e) && e@ == m,
        },
{
    let ghost views = server_views(configs@);
    let mut seen: Vec<String> = Vec::new();
    let mut i: usize = 0;
    while i < configs.len()
        invariant
            i <= configs@.len(),
            views == server_views(configs@),
            name_fault(views, i as int) is None,
            texts(seen@) == config_names(views, i as int),
        decreases configs@.len() - i,
    {
        let name = configs[i].name.as_str();
        assert(views[i as int].name == name@);
        if is_blank(name) {
            proof {
                lemma_name_fault(views, i + 1, views.len() as int);
            }
            return Err(owned("mcp_servers: server name must not be empty"));
        }
        if has_text(&seen, name) {
            proof {
                lemma_name_fault(views, i + 1, views.len() as int);
            }
            let mut e = owned("mcp_servers: duplicate server name '");
            e.push_str(name);
            e.push_str("'");
            return Err(e);
        }
        seen.push(owned(name));
        i += 1;
    }
    Ok(())
}

// Connecting.

/// The credentials of a connection.
#[derive(Debug)]
pub enum HttpMcpAuth {
    Anonymous,
    Bearer { token: String },
}

pub const AUTH_RECOVERY: &'static str = "run /login <configured-token-ref>";

/// The credentials that a configuration asks for, given what the credential store gave for
/// its token, or why the store could not be loaded. The store is looked at first.
pub open spec fn resolved_auth(auth: Option<HttpAuthConfig>, stored: Result<Option<String>, String>) -> Result<
    Option<Seq<char>>,
    Seq<char>,
> {
    match auth {
        None => Ok(None),
        Some(a) => match stored {
            Err(e) => Err(
                "failed to load local credential store: "@ + e@ + "; "@ + AUTH_RECOVERY@,
            ),
            Ok(token) => if a.kind@ != "bearer"@ {
                Err("unsupported streamable_http auth kind; expected bearer"@)
            } else if a.token_keychain_ref is None {
                Err("bearer auth requires token_keychain_ref"@)
            } else {
                match token {
                    Some(t) => Ok(Some(t@)),
                    None => Err(
                        "configured bearer credential was not found; "@ + AUTH_RECOVERY@,
                    ),
                }
            },
        },
    }
}

pub open spec fn auth_token(a: HttpMcpAuth) -> Option<Seq<char>> {
    match a {
        HttpMcpAuth::Anonymous => None,
        HttpMcpAuth::Bearer { token } => Some(token@),
    }
}

/// The credentials that a configuration asks for.
pub fn resolve_http_auth(auth: &Option<HttpAuthConfig>, stored: &Result<Option<String>, String>) -> (r:
    Result<HttpMcpAuth, String>)
    ensures
        match resolved_auth(*auth, *stored) {
            Ok(token) => r matches Ok(a) && auth_token(a) == token,
            Err(m) => r matches Err(e) && e@ == m,
        },
{
    let a = match auth {
        Some(a) => a,
        None => {
            return Ok(HttpMcpAuth::Anonymous);
        },
    };
    let token = match stored {
        Ok(token) => token,
        Err(e) => {
            let mut m = owned("failed to load local credential store: ");
            m.push_str(e.as_str());
            m.push_str("; ");
            m.push_str(AUTH_RECOVERY);
            return Err(m);
        },
    };
    if !a.kind.as_str().eq("bearer") {
        return Err(owned("unsupported streamable_http auth kind; expected bearer"));
    }
    if a.token_keychain_ref.is_none() {
        return Err(owned("bearer auth requires token_keychain_ref"));
    }
    match token {
        Some(t) => Ok(HttpMcpAuth::Bearer { token: t.clone() }),
        None => {
            let mut m = owned("configured bearer credential was not found; ");
            m.push_str(AUTH_RECOVERY);
            Err(m)
        },
    }
}

/// How a server on standard input and output is started.
#[derive(Debug)]
pub struct StdioPlan {
    pub command: String,
    pub args: Vec<String>,
}

/// How a server on standard input and output is started.
pub fn plan_stdio(s: &ServerConfig) -> (r: Result<StdioPlan, String>)
    ensures
        if s.endpoint is Some || s.auth is Some {
            r matches Err(e) && e@ == "stdio MCP server '"@ + s.name@
                + "' must not set endpoint or auth; remove streamable_http fields"@
        } else {
            match s.command {
                Some(command) => r matches Ok(p) && p.command@ == command@ && texts(p.args@)
                    == texts(s.args@),
                None => r matches Err(e) && e@ == "stdio MCP server '"@ + s.name@
                    + "' missing command"@,
            }
        },
{
    if s.endpoint.is_some() || s.auth.is_some() {
        let mut e = owned("stdio MCP server '");
        e.push_str(s.name.as_str());
        e.push_str("' must not set endpoint or auth; remove streamable_http fields");
        return Err(e);
    }
    match &s.command {
        Some(command) => Ok(StdioPlan { command: command.clone(), args: copy_texts(&s.args) }),
        None => {
            let mut e = owned("stdio MCP server '");
            e.push_str(s.name.as_str());
            e.push_str("' missing command");
            Err(e)
        },
    }
}

/// When a connection is made again.
#[derive(Clone, Copy, Debug, PartialEq, Eq, Structural)]
pub struct ReconnectPolicy {
    pub initial_ms: u64,
    pub max_ms: u64,
    pub max_attempts: Option<usize>,
}

/// How a server is reached over HTTP. What is not set keeps the transport's default.
#[derive(Debug)]
pub struct HttpPlan {
    pub endpoint: String,
    pub auth: HttpMcpAuth,
    pub request_timeout_ms: Option<u64>,
    pub sse_idle_timeout_ms: Option<u64>,
    pub body_cap_bytes: Option<usize>,
    pub reconnect: Option<ReconnectPolicy>,
}

pub open spec fn reconnect_policy(o: Option<ReconnectConfig>) -> Option<ReconnectPolicy> {
    match o {
        Some(c) => Some(
            (ReconnectPolicy {
                initial_ms: match c.initial_ms {
                    Some(ms) => ms,
                    None => 500,
                },
                max_ms: match c.max_ms {
                    Some(ms) => ms,
                    None => 30_000,
                },
                max_attempts: c.max_attempts,
            }),
        ),
        None => None,
    }
}

/// What is wrong with the configuration of a server that is reached over HTTP: the first
/// fault, in the order in which they are looked for.
pub open spec fn http_fault(s: ServerConfig, stored: Result<Option<String>, String>) -> Option<
    Seq<char>,
> {
    let head = "streamable_http MCP server '"@ + s.name@;
    if s.command is Some || s.args@.len() > 0 {
        Some(head + "' must set endpoint, not command/args"@)
    } else if s.endpoint is None {
        Some(head + "' missing endpoint"@)
    } else if resolved_auth(s.auth, stored) is Err {
        Some(resolved_auth(s.auth, stored)->Err_0)
    } else if s.request_timeout_ms == Some(0u64) {
        Some(head + "' request_timeout_ms must be positive"@)
    } else if s.sse_idle_timeout_ms == Some(0u64) {
        Some(head + "' sse_idle_timeout_ms must be positive"@)
    } else if s.body_cap_bytes == Some(0usize) {
        Some(head + "' body_cap_bytes must be positive"@)
    } else if s.reconnect matches Some(c) && (c.initial_ms == Some(0u64) || c.max_ms == Some(
        0u64,
    )) {
        Some(head + "' reconnect delays must be positive"@)
    } else {
        None
    }
}

fn http_error(name: &str, what: &str) -> (r: String)
    ensures
        r@ == "streamable_http MCP server '"@ + name@ + what@,
{
    let mut e = owned("streamable_http MCP server '");
    e.push_str(name);
    e.push_str(what);
    e
}

fn is_zero(o: Option<u64>) -> (r: bool)
    ensures
        r == (o == Some(0u64)),
{
    match o {
        Some(n) => n == 0,
        None => false,
    }
}

/// How a server is reached over HTTP, given what the credential store gave for its token.
pub fn plan_streamable_http(s: &ServerConfig, stored: &Result<Option<String>, String>) -> (r:
    Result<HttpPlan, String>)
    ensures
        match http_fault(*s, *stored) {
            Some(m) => r matches Err(e) && e@ == m,
            None => r matches Ok(p) && Some(p.endpoint@) == opt_text(s.endpoint)
                && resolved_auth(s.auth, *stored) == Ok::<Option<Seq<char>>, Seq<char>>(
                auth_token(p.auth),
            ) && p.request_timeout_ms == s.request_timeout_ms && p.sse_idle_timeout_ms
                == s.sse_idle_timeout_ms && p.body_cap_bytes == s.body_cap_bytes && p.reconnect
                == reconnect_policy(s.reconnect),
        },
{
    let name = s.name.as_str();
    if s.command.is_some() || s.args.len() > 0 {
        return Err(http_error(name, "' must set endpoint, not command/args"));
    }
    let endpoint = match &s.endpoint {
        Some(endpoint) => endpoint.clone(),
        None => {
            return Err(http_error(name, "' missing endpoint"));
        },
    };
    let auth = match resolve_http_auth(&s.auth, stored) {
        Ok(auth) => auth,
        Err(e) => {
            return Err(e);
        },
    };
    if is_zero(s.request_timeout_ms) {
        return Err(http_error(name, "' request_timeout_ms must be positive"));
    }
    if is_zero(s.sse_idle_timeout_ms) {
        return Err(http_error(name, "' sse_idle_timeout_ms must be positive"));
    }
    if let Some(cap) = s.body_cap_bytes {
        if cap == 0 {
            return Err(http_error(name, "' body_cap_bytes must be positive"));
        }
    }
    let reconnect = match s.reconnect {
        Some(c) => {
            if is_zero(c.initial_ms) || is_zero(c.max_ms) {
                return Err(http_error(name, "' reconnect delays must be positive"));
            }
            Some(
                ReconnectPolicy {
                    initial_ms: match c.initial_ms {
                        Some(ms) => ms,
                        None => 500,
                    },
                    max_ms: match c.max_ms {
                        Some(ms) => ms,
                        None => 30_000,
                    },
                    max_attempts: c.max_attempts,
                },
            )
        },
        None => None,
    };
    Ok(
        HttpPlan {
            endpoint,
            auth,
            request_timeout_ms: s.request_timeout_ms,
            sse_idle_timeout_ms: s.sse_idle_timeout_ms,
            body_cap_bytes: s.body_cap_bytes,
            reconnect,
        },
    )
}

/// No plan for a connection over HTTP has a delay or a limit of zero.
pub proof fn law_http_plans_have_positive_limits(
    s: ServerConfig,
    stored: Result<Option<String>, String>,
)
    requires
        http_fault(s, stored) is None,
    ensures
        s.request_timeout_ms matches Some(ms) ==> ms > 0,
        s.sse_idle_timeout_ms matches Some(ms) ==> ms > 0,
        s.body_cap_bytes matches Some(cap) ==> cap > 0,
        reconnect_policy(s.reconnect) matches Some(p) ==> p.initial_ms > 0 && p.max_ms > 0,
{
}

proof fn lemma_no_fault_before(v: Seq<ServerView>, n: int, m: int)
    requires
        0 <= n <= m <= v.len(),
        name_fault(v, m) is None,
    ensures
        name_fault(v, n) is None,
    decreases m - n,
{
    if n < m {
        lemma_no_fault_before(v, n, m - 1);
    }
}

proof fn lemma_config_names(v: Seq<ServerView>, n: int, i: int)
    requires
        0 <= i < n <= v.len(),
    ensures
        config_names(v, n).len() == n,
        config_names(v, n)[i] == v[i].name,
    decreases n,
{
    assert(config_names(v, 0) =~= Seq::empty());
    if i < n - 1 {
        lemma_config_names(v, n - 1, i);
    } else if n > 1 {
        lemma_config_names(v, n - 1, 0);
    }
}

/// A list of servers that is found valid has no name twice and no blank name.
pub proof fn law_valid_names_are_unique(v: Seq<ServerView>, i: int, j: int)
    requires
        name_fault(v, v.len() as int) is None,
        0 <= i <= j < v.len(),
    ensures
        i < j ==> v[i].name != v[j].name,
        trimmed(v[j].name).len() > 0,
{
    lemma_no_fault_before(v, j + 1, v.len() as int);
    if i < j {
        lemma_config_names(v, j, i);
        assert(config_names(v, j).contains(v[i].name));
    }
}

/// The configuration that stands under a name.
pub open spec fn config_under(v: Seq<ServerView>, name: Seq<char>) -> Option<ServerView> {
    match server_pos(v, name, 0) {
        Some(i) => Some(v[i]),
        None => None,
    }
}

/// The last of the first `n` configurations that has a name.
pub open spec fn last_named(v: Seq<ServerView>, name: Seq<char>, n: int) -> Option<ServerView>
    decreases n,
{
    if n <= 0 || n > v.len() {
        None
    } else if v[n - 1].name == name {
        Some(v[n - 1])
    } else {
        last_named(v, name, n - 1)
    }
}

proof fn lemma_server_pos(v: Seq<ServerView>, name: Seq<char>, from: int)
    requires
        0 <= from,
    ensures
        match server_pos(v, name, from) {
            Some(i) => from <= i < v.len() && v[i].name == name,
            None => forall|k: int| from <= k < v.len() ==> (#[trigger] v[k]).name != name,
        },
    decreases v.len() - from,
{
    if from < v.len() && v[from].name != name {
        lemma_server_pos(v, name, from + 1);
    }
}

proof fn lemma_updated_pos(v: Seq<ServerView>, at: int, s: ServerView, name: Seq<char>, from: int)
    requires
        0 <= from,
        0 <= at < v.len(),
        v[at].name == s.name,
    ensures
        server_pos(v.update(at, s), name, from) == server_pos(v, name, from),
    decreases v.len() - from,
{
    if from < v.len() && v[from].name != name {
        lemma_updated_pos(v, at, s, name, from + 1);
    }
}

proof fn lemma_pushed_pos(v: Seq<ServerView>, s: ServerView, name: Seq<char>, from: int)
    requires
        0 <= from <= v.len(),
    ensures
        server_pos(v.push(s), name, from) == (match server_pos(v, name, from) {
            Some(i) => Some(i),
            None => if s.name == name {
                Some(v.len() as int)
            } else {
                None
            },
        }),
    decreases v.len() - from,
{
    if from < v.len() {
        if v[from].name != name {
            lemma_pushed_pos(v, s, name, from + 1);
        }
    } else {
        assert(server_pos(v.push(s), name, from + 1) is None);
    }
}

proof fn lemma_overridden(v: Seq<ServerView>, s: ServerView, name: Seq<char>)
    ensures
        config_under(overridden(v, s), name) == (if s.name == name {
            Some(s)
        } else {
            config_under(v, name)
        }),
{
    lemma_server_pos(v, s.name, 0);
    lemma_server_pos(v, name, 0);
    match server_pos(v, s.name, 0) {
        Some(at) => {
            lemma_updated_pos(v, at, s, name, 0);
        },
        None => {
            lemma_pushed_pos(v, s, name, 0);
        },
    }
}

proof fn lemma_overridden_all(v: Seq<ServerView>, more: Seq<ServerView>, n: int, name: Seq<char>)
    requires
        0 <= n <= more.len(),
    ensures
        config_under(overridden_all(v, more, n), name) == (match last_named(more, name, n) {
            Some(s) => Some(s),
            None => config_under(v, name),
        }),
    decreases n,
{
    if n > 0 {
        lemma_overridden_all(v, more, n - 1, name);
        lemma_overridden(overridden_all(v, more, n - 1), more[n - 1], name);
    }
}

/// A server of the project overrides the user's of the same name; every other server of the
/// user is kept. Of servers of one name in a file the last one counts.
pub proof fn law_project_servers_override(user: ConfigRead, project: McpConfig, name: Seq<char>)
    ensures
        ({
            let of_user = with_file(Seq::empty(), user);
            let merged = with_file(of_user, ConfigRead::Parsed(project));
            let views = server_views(project.server@);
            config_under(merged, name) == (match last_named(views, name, views.len() as int) {
                Some(s) => Some(s),
                None => config_under(of_user, name),
            })
        }),
{
    let views = server_views(project.server@);
    lemma_overridden_all(with_file(Seq::empty(), user), views, views.len() as int, name);
}

/// Whether no name stands twice.
pub open spec fn names_differ(v: Seq<ServerView>) -> bool {
    forall|i: int, j: int|
        0 <= i < j < v.len() ==> (#[trigger] v[i]).name != (#[trigger] v[j]).name
}

proof fn lemma_names_differ(v: Seq<ServerView>, more: Seq<ServerView>, n: int)
    requires
        names_differ(v),
        0 <= n <= more.len(),
    ensures
        names_differ(overridden_all(v, more, n)),
    decreases n,
{
    if n > 0 {
        lemma_names_differ(v, more, n - 1);
        let before = overridden_all(v, more, n - 1);
        lemma_server_pos(before, more[n - 1].name, 0);
    }
}

/// No two of the servers that the files ask for share a name.
pub proof fn law_merged_names_differ(user: ConfigRead, project: ConfigRead)
    ensures
        names_differ(with_file(with_file(Seq::empty(), user), project)),
{
    let of_user = with_file(Seq::empty(), user);
    match user {
        ConfigRead::Parsed(c) => {
            lemma_names_differ(Seq::empty(), server_views(c.server@), c.server@.len() as int);
        },
        _ => {},
    }
    match project {
        ConfigRead::Parsed(c) => {
            lemma_names_differ(of_user, server_views(c.server@), c.server@.len() as int);
        },
        _ => {},
    }
}

proof fn lemma_no_fault(v: Seq<ServerView>, n: int)
    requires
        0 <= n <= v.len(),
        forall|i: int| 0 <= i < n ==> trimmed((#[trigger] v[i]).name).len() > 0,
        forall|i: int, j: int|
            0 <= i < j < n ==> (#[trigger] v[i]).name != (#[trigger] v[j]).name,
    ensures
        name_fault(v, n) is None,
        config_names(v, n).len() == n,
        forall|i: int| 0 <= i < n ==> #[trigger] config_names(v, n)[i] == v[i].name,
    decreases n,
{
    if n > 0 {
        lemma_no_fault(v, n - 1);
        let names = config_names(v, n - 1);
        if names.contains(v[n - 1].name) {
            let i = choose|i: int| 0 <= i < names.len() && names[i] == v[n - 1].name;
            assert(v[i].name == v[n - 1].name);
        }
    }
}

/// Names are accepted exactly where none is blank and no two are the same.
pub proof fn law_names_are_accepted_where_they_differ(v: Seq<ServerView>)
    ensures
        name_fault(v, v.len() as int) is None <==> {
            &&& forall|i: int| 0 <= i < v.len() ==> trimmed((#[trigger] v[i]).name).len() > 0
            &&& forall|i: int, j: int|
                0 <= i < j < v.len() ==> (#[trigger] v[i]).name != (#[trigger] v[j]).name
        },
{
    if name_fault(v, v.len() as int) is None {
        assert forall|i: int| 0 <= i < v.len() implies trimmed((#[trigger] v[i]).name).len()
            > 0 by {
            law_valid_names_are_unique(v, i, i);
        }
        assert forall|i: int, j: int| 0 <= i < j < v.len() implies (#[trigger] v[i]).name != (
        #[trigger] v[j]).name by {
            law_valid_names_are_unique(v, i, j);
        }
    }
    if (forall|i: int| 0 <= i < v.len() ==> trimmed((#[trigger] v[i]).name).len() > 0) && (forall|
        i: int,
        j: int,
    | 0 <= i < j < v.len() ==> (#[trigger] v[i]).name != (#[trigger] v[j]).name) {
        lemma_no_fault(v, v.len() as int);
    }
}

/// A server is asked with a token exactly where a bearer is configured with a reference under
/// which one is stored; without a configuration it is asked without one, and anything else is
/// refused.
pub proof fn law_tokens_come_from_the_store(
    auth: Option<HttpAuthConfig>,
    stored: Result<Option<String>, String>,
    token: Seq<char>,
)
    ensures
        resolved_auth(auth, stored) == Ok::<Option<Seq<char>>, Seq<char>>(Some(token)) <==> {
            &&& auth matches Some(a)
            &&& a.kind@ == "bearer"@
            &&& a.token_keychain_ref is Some
            &&& stored matches Ok(Some(t))
            &&& t@ == token
        },
        resolved_auth(auth, stored) == Ok::<Option<Seq<char>>, Seq<char>>(None) <==> auth is None,
{
}

/// A server over HTTP is planned exactly where it has an endpoint, no command, an accepted way
/// to prove who asks, and no limit of zero.
pub proof fn law_http_servers_are_planned_where_they_are_sound(
    s: ServerConfig,
    stored: Result<Option<String>, String>,
)
    ensures
        http_fault(s, stored) is None <==> {
            &&& s.command is None && s.args@.len() == 0
            &&& s.endpoint is Some
            &&& resolved_auth(s.auth, stored) is Ok
            &&& s.request_timeout_ms != Some(0u64)
            &&& s.sse_idle_timeout_ms != Some(0u64)
            &&& s.body_cap_bytes != Some(0usize)
            &&& s.reconnect matches Some(c) ==> c.initial_ms != Some(0u64) && c.max_ms != Some(0u64)
        },
{
}

/// A server takes the place of the one of its name, or stands behind all others; every other
/// server stays where it is.
pub proof fn law_overrides_keep_their_place(v: Seq<ServerView>, s: ServerView, i: int)
    ensures
        overridden(v, s).contains(s),
        0 <= i < v.len() && v[i].name != s.name ==> overridden(v, s)[i] == v[i],
        (forall|j: int| 0 <= j < v.len() ==> (#[trigger] v[j]).name != s.name) ==> overridden(v, s)
            == v.push(s),
        overridden(v, s).len() <= v.len() + 1,
{
    lemma_server_pos(v, s.name, 0);
    match server_pos(v, s.name, 0) {
        Some(k) => {
            assert(overridden(v, s)[k] == s);
        },
        None => {
            assert(overridden(v, s)[v.len() as int] == s);
        },
    }
}

/// A connection is tried again with the delays that are configured, and with defaults where
/// they are not.
pub proof fn law_reconnects_have_their_delays(c: ReconnectConfig)
    ensures
        reconnect_policy(Some(c)) matches Some(p) && {
            &&& c.initial_ms is Some ==> p.initial_ms == c.initial_ms->0
            &&& c.initial_ms is None ==> p.initial_ms == 500
            &&& c.max_ms is Some ==> p.max_ms == c.max_ms->0
            &&& c.max_ms is None ==> p.max_ms == 30_000
            &&& p.max_attempts == c.max_attempts
        },
        reconnect_policy(None) is None,
{
}

} // verus!
