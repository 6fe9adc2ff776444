//! Hooks that the user has set up: commands and webhooks that run on events.
//!
//! Rules come from two files, the user's and the project's; the project's count only where
//! the user allows it. A hook observes and never changes the agent; its failures are warnings.

use crate::json::{opt_json, Json};
use crate::text::{
    ascii_lowered, cut, debug_text, decimal, decimal_signed, decimal_size, digits, is_blank,
    lemma_texts_empty, lemma_texts_push, opt_text, owned, quoted, signed_digits, take_chars, texts,
    to_ascii_lowercase, trim, trimmed,
};
use crate::user_input::copy_opt;
use event::{
    agent_event_data, event_name, event_named, law_event_names_round_trip,
    law_only_event_names_are_read, EventData, EventDataView, HookEvent, LoopEvent,
};
use vstd::prelude::*;

pub mod event;
pub mod run;

verus! {

broadcast use {lemma_texts_push, lemma_texts_empty};

/// How long a hook may take where its rule does not say, in milliseconds.
pub const DEFAULT_TIMEOUT_MS: u64 = 5_000;

/// The directory that a command runs in.
#[derive(Clone, Copy, Debug, PartialEq, Eq, Structural)]
pub enum HookCwd {
    Project,
    ThewayHarness,
    Home,
}

/// What follows a failure.
#[derive(Clone, Copy, Debug, PartialEq, Eq, Structural)]
pub enum OnFailure {
    Warn,
    Ignore,
}

/// A rule as a file gives it.
#[derive(Debug)]
pub struct HookRuleConfig {
    pub event: String,
    pub command: Option<String>,
    pub webhook: Option<String>,
    pub headers: Vec<(String, String)>,
    pub timeout_ms: Option<u64>,
    pub enabled: Option<bool>,
    pub cwd: Option<HookCwd>,
    pub on_failure: Option<OnFailure>,
    pub tool: Option<String>,
}

/// A file of rules.
#[derive(Debug)]
pub struct HooksFile {
    pub allow_project_hooks: bool,
    pub hooks: Vec<HookRuleConfig>,
}

/// What the reading of a file gave.
#[derive(Debug)]
pub enum FileRead {
    Missing,
    ReadFailed(String),
    ParseFailed(String),
    Parsed(HooksFile),
}

/// A rule that is in force.
#[derive(Debug)]
pub struct HookRule {
    pub event: HookEvent,
    pub command: Option<String>,
    pub webhook: Option<String>,
    pub headers: Vec<(String, String)>,
    pub timeout_ms: u64,
    pub cwd: HookCwd,
    pub on_failure: OnFailure,
    pub tool: Option<String>,
    pub source: String,
}

/// The content of a `HookRule`.
pub struct HookRuleView {
    pub event: HookEvent,
    pub command: Option<Seq<char>>,
    pub webhook: Option<Seq<char>>,
    pub headers: Seq<(Seq<char>, Seq<char>)>,
    pub timeout_ms: u64,
    pub cwd: HookCwd,
    pub on_failure: OnFailure,
    pub tool: Option<Seq<char>>,
    pub source: Seq<char>,
}

pub open spec fn header_views(v: Seq<(String, String)>) -> Seq<(Seq<char>, Seq<char>)> {
    Seq::new(v.len(), |i: int| (v[i].0@, v[i].1@))
}

impl View for HookRule {
    type V = HookRuleView;

    open spec fn view(&self) -> HookRuleView {
        HookRuleView {
            event: self.event,
            command: opt_text(self.command),
            webhook: opt_text(self.webhook),
            headers: header_views(self.headers@),
            timeout_ms: self.timeout_ms,
            cwd: self.cwd,
            on_failure: self.on_failure,
            tool: opt_text(self.tool),
            source: self.source@,
        }
    }
}

pub open spec fn rule_views(v: Seq<HookRule>) -> Seq<HookRuleView> {
    Seq::new(v.len(), |i: int| v[i]@)
}

pub fn copy_headers(v: &Vec<(String, String)>) -> (r: Vec<(String, String)>)
    ensures
        header_views(r@) == header_views(v@),
{
    let mut r: Vec<(String, String)> = Vec::new();
    let ghost all = header_views(v@);
    let mut i: usize = 0;
    assert(header_views(r@) =~= all.take(0));
    while i < v.len()
        invariant
            i <= v@.len(),
            all == header_views(v@),
            header_views(r@) == all.take(i as int),
        decreases v@.len() - i,
    {
        let ghost before = header_views(r@);
        r.push((v[i].0.clone(), v[i].1.clone()));
        assert(header_views(r@) =~= before.push(all[i as int]));
        assert(all.take(i + 1) =~= all.take(i as int).push(all[i as int]));
        i += 1;
    }
    assert(all.take(i as int) =~= all);
    r
}

impl HookRule {
    pub fn copy(&self) -> (r: HookRule)
        ensures
            r@ == self@,
    {
        HookRule {
            event: self.event,
            command: copy_opt(&self.command),
            webhook: copy_opt(&self.webhook),
            headers: copy_headers(&self.headers),
            timeout_ms: self.timeout_ms,
            cwd: self.cwd,
            on_failure: self.on_failure,
            tool: copy_opt(&self.tool),
            source: self.source.clone(),
        }
    }

    /// Whether the rule fires on an event: on its own event, and on its own tool where it
    /// names one.
    pub fn matches(&self, data: &EventData) -> (r: bool)
        ensures
            r == fires(self@, data@),
    {
        if self.event != data.event {
            return false;
        }
        match &self.tool {
            Some(tool) => match &data.tool_name {
                Some(name) => name.as_str().eq(tool.as_str()),
                None => false,
            },
            None => true,
        }
    }

    /// The warning of a failure, where the rule wants one.
    pub fn warning(&self, error: &str) -> (r: Option<String>)
        ensures
            opt_text(r) == (match self.on_failure {
                OnFailure::Warn => Some(
                    failure_text(self.source@, event_name(self.event), error@),
                ),
                OnFailure::Ignore => None,
            }),
    {
        match self.on_failure {
            OnFailure::Warn => {
                let mut m = owned("hook ");
                m.push_str(self.source.as_str());
                m.push_str(" ");
                m.push_str(self.event.as_str());
                m.push_str(" failed: ");
                m.push_str(error);
                Some(m)
            },
            OnFailure::Ignore => None,
        }
    }
}

/// What is warned of when a rule fails.
pub open spec fn failure_text(source: Seq<char>, event: Seq<char>, error: Seq<char>) -> Seq<char> {
    "hook "@ + source + " "@ + event + " failed: "@ + error
}

/// Whether a rule fires on an event.
pub open spec fn fires(rule: HookRuleView, data: EventDataView) -> bool {
    rule.event == data.event && (rule.tool is None || data.tool_name == rule.tool)
}

// Loading.

/// What comes of a rule in a file.
pub enum RuleResult {
    Disabled,
    Refused(Seq<char>),
    Accepted(HookRuleView),
}

pub open spec fn nonblank(o: Option<String>) -> Option<Seq<char>> {
    match o {
        Some(s) => if trimmed(s@).len() > 0 {
            Some(s@)
        } else {
            None
        },
        None => None,
    }
}

/// What comes of the rule at a place in a file: it counts where it is not disabled, names a
/// known event, and has a command that is not blank or a webhook.
pub open spec fn rule_result(cfg: HookRuleConfig, source: Seq<char>, at: int) -> RuleResult {
    if cfg.enabled == Some(false) {
        RuleResult::Disabled
    } else {
        match event_named(cfg.event@) {
            None => RuleResult::Refused(
                "hooks "@ + source + ": hook #"@ + digits((at + 1) as nat) + " has unknown event "@
                    + debug_text(cfg.event@),
            ),
            Some(event) => if nonblank(cfg.command) is None && cfg.webhook is None {
                RuleResult::Refused(
                    "hooks "@ + source + ": hook #"@ + digits((at + 1) as nat)
                        + " has neither command nor webhook"@,
                )
            } else {
                RuleResult::Accepted(
                    (HookRuleView {
                        event,
                        command: nonblank(cfg.command),
                        webhook: opt_text(cfg.webhook),
                        headers: header_views(cfg.headers@),
                        timeout_ms: match cfg.timeout_ms {
                            Some(t) => t,
                            None => DEFAULT_TIMEOUT_MS,
                        },
                        cwd: match cfg.cwd {
                            Some(c) => c,
                            None => HookCwd::Project,
                        },
                        on_failure: match cfg.on_failure {
                            Some(f) => f,
                            None => OnFailure::Warn,
                        },
                        tool: opt_text(cfg.tool),
                        source,
                    }),
                )
            },
        }
    }
}

/// The rules that the first `n` of a file make.
pub open spec fn accepted(cfgs: Seq<HookRuleConfig>, source: Seq<char>, n: int) -> Seq<HookRuleView>
    decreases n,
{
    if n <= 0 || n > cfgs.len() {
        Seq::empty()
    } else {
        match rule_result(cfgs[n - 1], source, n - 1) {
            RuleResult::Accepted(rule) => accepted(cfgs, source, n - 1).push(rule),
            _ => accepted(cfgs, source, n - 1),
        }
    }
}

/// The refusals among the first `n` rules of a file.
pub open spec fn refusals(cfgs: Seq<HookRuleConfig>, source: Seq<char>, n: int) -> Seq<Seq<char>>
    decreases n,
{
    if n <= 0 || n > cfgs.len() {
        Seq::empty()
    } else {
        match rule_result(cfgs[n - 1], source, n - 1) {
            RuleResult::Refused(m) => refusals(cfgs, source, n - 1).push(m),
            _ => refusals(cfgs, source, n - 1),
        }
    }
}

fn keep_nonblank(o: &Option<String>) -> (r: Option<String>)
    ensures
        opt_text(r) == nonblank(*o),
{
    match o {
        Some(s) => if is_blank(s.as_str()) {
            None
        } else {
            Some(s.clone())
        },
        None => None,
    }
}

fn refusal(source: &str, at: usize, what: &str) -> (r: String)
    requires
        at < usize::MAX,
    ensures
        r@ == "hooks "@ + source@ + ": hook #"@ + digits((at + 1) as nat) + what@,
{
    let mut m = owned("hooks ");
    m.push_str(source);
    m.push_str(": hook #");
    m.push_str(decimal_size(at + 1).as_str());
    m.push_str(what);
    m
}

/// Adds the rules of a file to those that are there, and the refusals to the diagnostics.
pub fn push_rules(
    file: &HooksFile,
    source: &str,
    rules: &mut Vec<HookRule>,
    diagnostics: &mut Vec<String>,
)
    ensures
        rule_views(final(rules)@) == rule_views(old(rules)@) + accepted(
            file.hooks@,
            source@,
            file.hooks@.len() as int,
        ),
        texts(final(diagnostics)@) == texts(old(diagnostics)@) + refusals(
            file.hooks@,
            source@,
            file.hooks@.len() as int,
        ),
{
    let ghost cfgs = file.hooks@;
    let ghost rules_before = rule_views(rules@);
    let ghost notes_before = texts(diagnostics@);
    let mut i: usize = 0;
    assert(rules_before + accepted(cfgs, source@, 0) =~= rules_before);
    assert(notes_before + refusals(cfgs, source@, 0) =~= notes_before);
    while i < file.hooks.len()
        invariant
            i <= file.hooks@.len(),
            cfgs == file.hooks@,
            rule_views(rules@) == rules_before + accepted(cfgs, source@, i as int),
            texts(diagnostics@) == notes_before + refusals(cfgs, source@, i as int),
        decreases file.hooks@.len() - i,
    {
        let cfg = &file.hooks[i];
        let ghost so_far = accepted(cfgs, source@, i as int);
        let ghost noted = refusals(cfgs, source@, i as int);
        let disabled = match cfg.enabled {
            Some(enabled) => !enabled,
            None => false,
        };
        if !disabled {
            match HookEvent::parse(cfg.event.as_str()) {
                None => {
                    let mut m = refusal(source, i, " has unknown event ");
                    m.push_str(quoted(cfg.event.as_str()).as_str());
                    diagnostics.push(m);
                    assert(notes_before + noted.push(m@) =~= (notes_before + noted).push(m@));
                },
                Some(event) => {
                    let command = keep_nonblank(&cfg.command);
                    if command.is_none() && cfg.webhook.is_none() {
                        let m = refusal(source, i, " has neither command nor webhook");
                        diagnostics.push(m);
                        assert(notes_before + noted.push(m@) =~= (notes_before + noted).push(m@));
                    } else {
                        let ghost before = rules@;
                        let rule = HookRule {
                            event,
                            command,
                            webhook: copy_opt(&cfg.webhook),
                            headers: copy_headers(&cfg.headers),
                            timeout_ms: match cfg.timeout_ms {
                                Some(t) => t,
                                None => DEFAULT_TIMEOUT_MS,
                            },
                            cwd: match cfg.cwd {
                                Some(c) => c,
                                None => HookCwd::Project,
                            },
                            on_failure: match cfg.on_failure {
                                Some(f) => f,
                                None => OnFailure::Warn,
                            },
                            tool: copy_opt(&cfg.tool),
                            source: owned(source),
                        };
                        rules.push(rule);
                        assert(rule_views(rules@) =~= rule_views(before).push(rule@));
                        assert(rules_before + so_far.push(rule@) =~= (rules_before + so_far).push(
                            rule@,
                        ));
                    }
                },
            }
        }
        i += 1;
    }
}

/// Whether the project's hooks count: where the environment or the user's file says so.
pub open spec fn project_allowed(env: Option<Seq<char>>, user: FileRead) -> bool {
    ||| (env matches Some(v) && (v == "1"@ || ascii_lowered(v) == "true"@))
    ||| (user matches FileRead::Parsed(file) && file.allow_project_hooks)
}

/// Whether the project's hooks count, given the value of `THEWAY_ALLOW_PROJECT_HOOKS`.
pub fn project_hooks_allowed(env: &Option<String>, user: &FileRead) -> (r: bool)
    ensures
        r == project_allowed(opt_text(*env), *user),
{
    let by_env = match env {
        Some(v) => v.as_str().eq("1") || to_ascii_lowercase(v.as_str()).as_str().eq("true"),
        None => false,
    };
    let by_user = match user {
        FileRead::Parsed(file) => file.allow_project_hooks,
        _ => false,
    };
    by_env || by_user
}

/// What is noted of the reading of a file.
pub open spec fn read_notes(path: Seq<char>, label: Seq<char>, read: FileRead) -> Seq<Seq<char>> {
    match read {
        FileRead::ReadFailed(e) => seq![
            "hooks "@ + label + ": read "@ + path + " failed: "@ + e@,
        ],
        FileRead::ParseFailed(e) => seq![
            "hooks "@ + label + ": parse "@ + path + " failed: "@ + e@,
        ],
        _ => Seq::empty(),
    }
}

/// What the rules of a file that was read add to the diagnostics.
pub open spec fn file_refusals(label: Seq<char>, read: FileRead) -> Seq<Seq<char>> {
    match read {
        FileRead::Parsed(file) => refusals(file.hooks@, label, file.hooks@.len() as int),
        _ => Seq::empty(),
    }
}

/// The rules of a file that was read.
pub open spec fn file_rules(label: Seq<char>, read: FileRead) -> Seq<HookRuleView> {
    match read {
        FileRead::Parsed(file) => accepted(file.hooks@, label, file.hooks@.len() as int),
        _ => Seq::empty(),
    }
}

pub const NO_COMMAND_EXECUTOR: &'static str =
    "hooks: command rules loaded but no command executor was injected — command side effects will be skipped (no side-effect executors injected)";

pub const NO_WEBHOOK_SENDER: &'static str =
    "hooks: webhook rules loaded but no webhook sender was injected — webhook side effects will be skipped (no side-effect executors injected)";

pub open spec fn has_command(rules: Seq<HookRuleView>) -> bool {
    exists|i: int| 0 <= i < rules.len() && (#[trigger] rules[i]).command is Some
}

pub open spec fn has_webhook(rules: Seq<HookRuleView>) -> bool {
    exists|i: int| 0 <= i < rules.len() && (#[trigger] rules[i]).webhook is Some
}

/// What the files that were read hold, and where they are.
#[derive(Debug)]
pub struct HookFiles {
    pub user_path: String,
    pub user: FileRead,
    pub project_path: String,
    pub project: FileRead,
    /// The value of `THEWAY_ALLOW_PROJECT_HOOKS`.
    pub allow_env: Option<String>,
}

/// The rules of the files: those of the user, and those of the project where they are allowed.
pub open spec fn loaded_rules(files: HookFiles) -> Seq<HookRuleView> {
    file_rules("user"@, files.user) + (if project_allowed(opt_text(files.allow_env), files.user) {
        file_rules("project"@, files.project)
    } else {
        Seq::empty()
    })
}

/// The note on a project's hooks that do not count.
pub open spec fn ignored_text(files: HookFiles) -> Seq<char> {
    "project hooks ignored at "@ + files.project_path@ + "; set allow_project_hooks = true in "@
        + files.user_path@ + " or THEWAY_ALLOW_PROJECT_HOOKS=1"@
}

/// What is noted of the files.
pub open spec fn loaded_notes(files: HookFiles) -> Seq<Seq<char>> {
    read_notes(files.user_path@, "user"@, files.user) + file_refusals("user"@, files.user) + (
    if files.project is Missing {
        Seq::empty()
    } else if project_allowed(opt_text(files.allow_env), files.user) {
        read_notes(files.project_path@, "project"@, files.project) + file_refusals(
            "project"@,
            files.project,
        )
    } else {
        seq![ignored_text(files)]
    })
}

/// What is noted of rules that cannot run.
pub open spec fn executor_notes(rules: Seq<HookRuleView>, command: bool, webhook: bool) -> Seq<
    Seq<char>,
> {
    (if !command && has_command(rules) {
        seq![NO_COMMAND_EXECUTOR@]
    } else {
        Seq::empty()
    }) + (if !webhook && has_webhook(rules) {
        seq![NO_WEBHOOK_SENDER@]
    } else {
        Seq::empty()
    })
}

/// The session that hooks run for.
#[derive(Debug)]
pub struct HookSession {
    pub session_id: String,
    /// The provider and the identifier of the model.
    pub model: Option<(String, String)>,
    pub thinking_level: Option<String>,
}

/// The directories that hooks run in.
#[derive(Debug)]
pub struct HookPaths {
    pub work_dir: String,
    pub base: String,
    pub home: String,
}

/// The rules that are in force, and the session that they run for.
#[derive(Debug)]
pub struct HookRunner {
    pub rules: Vec<HookRule>,
    pub session_id: String,
    pub work_dir: String,
    pub base: String,
    pub home: String,
    pub model_provider: String,
    pub model_id: String,
    pub thinking_level: String,
    pub runs_commands: bool,
    pub sends_webhooks: bool,
}

pub open spec fn provider_of(s: HookSession) -> Seq<char> {
    match s.model {
        Some((provider, _)) => provider@,
        None => Seq::empty(),
    }
}

pub open spec fn model_of(s: HookSession) -> Seq<char> {
    match s.model {
        Some((_, id)) => id@,
        None => Seq::empty(),
    }
}

pub open spec fn thinking_of(s: HookSession) -> Seq<char> {
    match s.thinking_level {
        Some(level) => level@,
        None => "off"@,
    }
}

/// Whether a runner runs for a session.
pub open spec fn runs_for(r: HookRunner, s: HookSession) -> bool {
    &&& r.session_id@ == s.session_id@
    &&& r.model_provider@ == provider_of(s)
    &&& r.model_id@ == model_of(s)
    &&& r.thinking_level@ == thinking_of(s)
}

/// A runner, and what was noted while it was made.
#[derive(Debug)]
pub struct LoadedHooks {
    pub runner: HookRunner,
    pub diagnostics: Vec<String>,
}

fn push_read_notes(path: &str, label: &str, read: &FileRead, diagnostics: &mut Vec<String>)
    ensures
        texts(final(diagnostics)@) == texts(old(diagnostics)@) + read_notes(path@, label@, *read),
{
    let ghost before = texts(diagnostics@);
    match read {
        FileRead::ReadFailed(e) => {
            let mut m = owned("hooks ");
            m.push_str(label);
            m.push_str(": read ");
            m.push_str(path);
            m.push_str(" failed: ");
            m.push_str(e.as_str());
            diagnostics.push(m);
            assert(before.push(m@) =~= before + seq![m@]);
        },
        FileRead::ParseFailed(e) => {
            let mut m = owned("hooks ");
            m.push_str(label);
            m.push_str(": parse ");
            m.push_str(path);
            m.push_str(" failed: ");
            m.push_str(e.as_str());
            diagnostics.push(m);
            assert(before.push(m@) =~= before + seq![m@]);
        },
        _ => {
            assert(before + Seq::<Seq<char>>::empty() =~= before);
        },
    }
}

fn push_file(
    path: &str,
    label: &str,
    read: &FileRead,
    rules: &mut Vec<HookRule>,
    diagnostics: &mut Vec<String>,
)
    ensures
        rule_views(final(rules)@) == rule_views(old(rules)@) + file_rules(label@, *read),
        texts(final(diagnostics)@) == texts(old(diagnostics)@) + read_notes(path@, label@, *read)
            + file_refusals(label@, *read),
{
    push_read_notes(path, label, read, diagnostics);
    let ghost noted = texts(diagnostics@);
    match read {
        FileRead::Parsed(file) => push_rules(file, label, rules, diagnostics),
        _ => {
            assert(rule_views(rules@) + Seq::<HookRuleView>::empty() =~= rule_views(rules@));
            assert(noted + Seq::<Seq<char>>::empty() =~= noted);
        },
    }
}

fn some_command(rules: &Vec<HookRule>) -> (r: bool)
    ensures
        r == has_command(rule_views(rules@)),
{
    let mut i: usize = 0;
    while i < rules.len()
        invariant
            i <= rules@.len(),
            forall|j: int| 0 <= j < i ==> (#[trigger] rule_views(rules@)[j]).command is None,
        decreases rules@.len() - i,
    {
        if rules[i].command.is_some() {
            assert(rule_views(rules@)[i as int].command is Some);
            return true;
        }
        i += 1;
    }
    false
}

fn some_webhook(rules: &Vec<HookRule>) -> (r: bool)
    ensures
        r == has_webhook(rule_views(rules@)),
{
    let mut i: usize = 0;
    while i < rules.len()
        invariant
            i <= rules@.len(),
            forall|j: int| 0 <= j < i ==> (#[trigger] rule_views(rules@)[j]).webhook is None,
        decreases rules@.len() - i,
    {
        if rules[i].webhook.is_some() {
            assert(rule_views(rules@)[i as int].webhook is Some);
            return true;
        }
        i += 1;
    }
    false
}

fn copy_rules(v: &Vec<HookRule>) -> (r: Vec<HookRule>)
    ensures
        rule_views(r@) == rule_views(v@),
{
    let mut r: Vec<HookRule> = Vec::new();
    let ghost all = rule_views(v@);
    let mut i: usize = 0;
    assert(rule_views(r@) =~= all.take(0));
    while i < v.len()
        invariant
            i <= v@.len(),
            all == rule_views(v@),
            rule_views(r@) == all.take(i as int),
        decreases v@.len() - i,
    {
        let ghost before = rule_views(r@);
        let rule = v[i].copy();
        r.push(rule);
        assert(rule_views(r@) =~= before.push(all[i as int]));
        assert(all.take(i + 1) =~= all.take(i as int).push(all[i as int]));
        i += 1;
    }
    assert(all.take(i as int) =~= all);
    r
}

fn runner_for(
    rules: Vec<HookRule>,
    session: &HookSession,
    paths: &HookPaths,
    runs_commands: bool,
    sends_webhooks: bool,
) -> (r: HookRunner)
    ensures
        r.rules == rules,
        runs_for(r, *session),
        r.work_dir@ == paths.work_dir@,
        r.base@ == paths.base@,
        r.home@ == paths.home@,
        r.runs_commands == runs_commands,
        r.sends_webhooks == sends_webhooks,
{
    let (model_provider, model_id) = match &session.model {
        Some((provider, id)) => (provider.clone(), id.clone()),
        None => (String::new(), String::new()),
    };
    assert(model_provider@ =~= provider_of(*session));
    assert(model_id@ =~= model_of(*session));
    HookRunner {
        rules,
        session_id: session.session_id.clone(),
        work_dir: paths.work_dir.clone(),
        base: paths.base.clone(),
        home: paths.home.clone(),
        model_provider,
        model_id,
        thinking_level: match &session.thinking_level {
            Some(level) => level.clone(),
            None => owned("off"),
        },
        runs_commands,
        sends_webhooks,
    }
}

/// The runner of a session, from the files that were read. Where no files are to be read,
/// there are no rules.
pub fn load_with(
    files: &Option<HookFiles>,
    session: &HookSession,
    paths: &HookPaths,
    runs_commands: bool,
    sends_webhooks: bool,
) -> (r: LoadedHooks)
    ensures
        ({
            let rules = match files {
                Some(f) => loaded_rules(*f),
                None => Seq::empty(),
            };
            let notes = match files {
                Some(f) => loaded_notes(*f),
                None => Seq::empty(),
            };
            &&& rule_views(r.runner.rules@) == rules
            &&& texts(r.diagnostics@) == notes + executor_notes(
                rules,
                runs_commands,
                sends_webhooks,
            )
        }),
        runs_for(r.runner, *session),
        r.runner.work_dir@ == paths.work_dir@,
        r.runner.base@ == paths.base@,
        r.runner.home@ == paths.home@,
        r.runner.runs_commands == runs_commands,
        r.runner.sends_webhooks == sends_webhooks,
{
    let mut rules: Vec<HookRule> = Vec::new();
    let mut diagnostics: Vec<String> = Vec::new();
    let ghost no_rules = Seq::<HookRuleView>::empty();
    let ghost no_notes = Seq::<Seq<char>>::empty();
    assert(rule_views(rules@) =~= no_rules);
    if let Some(f) = files {
        push_file(f.user_path.as_str(), "user", &f.user, &mut rules, &mut diagnostics);
        proof {
            assert(rule_views(rules@) =~= file_rules("user"@, f.user));
            assert(texts(diagnostics@) =~= read_notes(f.user_path@, "user"@, f.user)
                + file_refusals("user"@, f.user));
        }
        let ghost user_rules = rule_views(rules@);
        let ghost user_notes = texts(diagnostics@);
        let exists_project = match &f.project {
            FileRead::Missing => false,
            _ => true,
        };
        if exists_project {
            if project_hooks_allowed(&f.allow_env, &f.user) {
                push_file(
                    f.project_path.as_str(),
                    "project",
                    &f.project,
                    &mut rules,
                    &mut diagnostics,
                );
                assert(texts(diagnostics@) =~= user_notes + (read_notes(
                    f.project_path@,
                    "project"@,
                    f.project,
                ) + file_refusals("project"@, f.project)));
            } else {
                let mut m = owned("project hooks ignored at ");
                m.push_str(f.project_path.as_str());
                m.push_str("; set allow_project_hooks = true in ");
                m.push_str(f.user_path.as_str());
                m.push_str(" or THEWAY_ALLOW_PROJECT_HOOKS=1");
                diagnostics.push(m);
                assert(texts(diagnostics@) =~= user_notes + seq![ignored_text(*f)]);
                assert(user_rules + no_rules =~= user_rules);
            }
        } else {
            assert(user_rules + no_rules =~= user_rules);
            assert(user_notes + no_notes =~= user_notes);
        }
        assert(rule_views(rules@) == loaded_rules(*f));
        assert(texts(diagnostics@) == loaded_notes(*f));
    }
    let ghost loaded = rule_views(rules@);
    let ghost notes = texts(diagnostics@);
    if !runs_commands && some_command(&rules) {
        diagnostics.push(owned(NO_COMMAND_EXECUTOR));
    }
    if !sends_webhooks && some_webhook(&rules) {
        diagnostics.push(owned(NO_WEBHOOK_SENDER));
    }
    assert(texts(diagnostics@) =~= notes + executor_notes(loaded, runs_commands, sends_webhooks));
    LoadedHooks {
        runner: runner_for(rules, session, paths, runs_commands, sends_webhooks),
        diagnostics,
    }
}

// Running.

/// What a hook is told of an event.
#[derive(Debug)]
pub struct HookPayload {
    pub event: String,
    pub session_id: String,
    pub cwd: String,
    pub model_provider: String,
    pub model_id: String,
    pub thinking_level: String,
    pub source: Option<String>,
    pub message_kind: Option<String>,
    pub message_summary: Option<String>,
    pub assistant_event: Option<String>,
    pub tool_call_id: Option<String>,
    pub tool_name: Option<String>,
    pub tool_is_error: Option<bool>,
    pub tool_args: Option<Json>,
    pub tool_result_summary: Option<String>,
    pub compaction_trigger: Option<String>,
    pub compaction_tokens_before: Option<u64>,
    pub compaction_summary: Option<String>,
}

/// Whether a payload tells a hook of an event.
pub open spec fn tells(p: HookPayload, runner: HookRunner, rule: HookRule, data: EventDataView) -> bool {
    &&& p.event@ == event_name(data.event)
    &&& p.session_id@ == runner.session_id@
    &&& p.cwd@ == runner.work_dir@
    &&& p.model_provider@ == runner.model_provider@
    &&& p.model_id@ == runner.model_id@
    &&& p.thinking_level@ == runner.thinking_level@
    &&& opt_text(p.source) == Some(rule.source@)
    &&& opt_text(p.message_kind) == data.message_kind
    &&& opt_text(p.message_summary) == data.message_summary
    &&& opt_text(p.assistant_event) == data.assistant_event
    &&& opt_text(p.tool_call_id) == data.tool_call_id
    &&& opt_text(p.tool_name) == data.tool_name
    &&& p.tool_is_error == data.tool_is_error
    &&& opt_json(p.tool_args) == data.tool_args
    &&& opt_text(p.tool_result_summary) == data.tool_result_summary
    &&& opt_text(p.compaction_trigger) == data.compaction_trigger
    &&& p.compaction_tokens_before == data.compaction_tokens_before
    &&& opt_text(p.compaction_summary) == data.compaction_summary
}

/// What a rule does when it fires.
#[derive(Debug)]
pub struct RulePlan {
    pub command: Option<String>,
    pub webhook: Option<String>,
    /// What is logged of side effects that nothing can perform.
    pub skipped: Vec<String>,
}

/// What is logged of a side effect that nothing can perform.
pub open spec fn skipped_text(rule: HookRule, what: Seq<char>) -> Seq<char> {
    "hook "@ + rule.source@ + " "@ + event_name(rule.event) + ": "@ + what
}

fn skipped_note(rule: &HookRule, what: &str) -> (r: String)
    ensures
        r@ == skipped_text(*rule, what@),
{
    let mut m = owned("hook ");
    m.push_str(rule.source.as_str());
    m.push_str(" ");
    m.push_str(rule.event.as_str());
    m.push_str(": ");
    m.push_str(what);
    m
}

pub const COMMAND_SKIPPED: &'static str =
    "command side effect skipped (no command executor injected)";

pub const WEBHOOK_SKIPPED: &'static str =
    "webhook side effect skipped (no webhook sender injected)";

/// The positions of the rules that fire, among the first `n`.
pub open spec fn firing(rules: Seq<HookRuleView>, data: EventDataView, n: int) -> Seq<int>
    decreases n,
{
    if n <= 0 || n > rules.len() {
        Seq::empty()
    } else if fires(rules[n - 1], data) {
        firing(rules, data, n - 1).push(n - 1)
    } else {
        firing(rules, data, n - 1)
    }
}

pub open spec fn as_positions(v: Seq<usize>) -> Seq<int> {
    Seq::new(v.len(), |i: int| v[i] as int)
}

impl HookRunner {
    /// The runner of another session, with the same rules and directories.
    pub fn for_session(&self, session: &HookSession) -> (r: HookRunner)
        ensures
            rule_views(r.rules@) == rule_views(self.rules@),
            runs_for(r, *session),
            r.work_dir@ == self.work_dir@,
            r.base@ == self.base@,
            r.home@ == self.home@,
            r.runs_commands == self.runs_commands,
            r.sends_webhooks == self.sends_webhooks,
    {
        let paths = HookPaths {
            work_dir: self.work_dir.clone(),
            base: self.base.clone(),
            home: self.home.clone(),
        };
        runner_for(
            copy_rules(&self.rules),
            session,
            &paths,
            self.runs_commands,
            self.sends_webhooks,
        )
    }

    pub fn is_empty(&self) -> (r: bool)
        ensures
            r == (self.rules@.len() == 0),
    {
        self.rules.len() == 0
    }

    pub fn len(&self) -> (r: usize)
        ensures
            r == self.rules@.len(),
    {
        self.rules.len()
    }

    /// The positions of the rules that fire on an event, in order.
    pub fn matching(&self, data: &EventData) -> (r: Vec<usize>)
        ensures
            as_positions(r@) == firing(rule_views(self.rules@), data@, self.rules@.len() as int),
            forall|i: int| 0 <= i < r@.len() ==> (#[trigger] r@[i]) < self.rules@.len(),
    {
        let mut r: Vec<usize> = Vec::new();
        let ghost views = rule_views(self.rules@);
        let mut i: usize = 0;
        assert(as_positions(r@) =~= firing(views, data@, 0));
        while i < self.rules.len()
            invariant
                i <= self.rules@.len(),
                views == rule_views(self.rules@),
                as_positions(r@) == firing(views, data@, i as int),
                forall|k: int| 0 <= k < r@.len() ==> (#[trigger] r@[k]) < self.rules@.len(),
            decreases self.rules@.len() - i,
        {
            if self.rules[i].matches(data) {
                let ghost before = r@;
                r.push(i);
                assert(as_positions(r@) =~= as_positions(before).push(i as int));
            }
            i += 1;
        }
        r
    }

    /// What a hook is told of an event.
    pub fn payload_for(&self, rule: &HookRule, data: &EventData) -> (r: HookPayload)
        ensures
            tells(r, *self, *rule, data@),
    {
        HookPayload {
            event: owned(data.event.as_str()),
            session_id: self.session_id.clone(),
            cwd: self.work_dir.clone(),
            model_provider: self.model_provider.clone(),
            model_id: self.model_id.clone(),
            thinking_level: self.thinking_level.clone(),
            source: Some(rule.source.clone()),
            message_kind: copy_opt(&data.message_kind),
            message_summary: copy_opt(&data.message_summary),
            assistant_event: copy_opt(&data.assistant_event),
            tool_call_id: copy_opt(&data.tool_call_id),
            tool_name: copy_opt(&data.tool_name),
            tool_is_error: data.tool_is_error,
            tool_args: match &data.tool_args {
                Some(args) => Some(args.copy()),
                None => None,
            },
            tool_result_summary: copy_opt(&data.tool_result_summary),
            compaction_trigger: copy_opt(&data.compaction_trigger),
            compaction_tokens_before: data.compaction_tokens_before,
            compaction_summary: copy_opt(&data.compaction_summary),
        }
    }

    /// What a rule does when it fires: its command, then its webhook, as far as there is
    /// something to perform them.
    pub fn plan(&self, rule: &HookRule) -> (r: RulePlan)
        ensures
            opt_text(r.command) == (if self.runs_commands {
                opt_text(rule.command)
            } else {
                None
            }),
            opt_text(r.webhook) == (if self.sends_webhooks {
                opt_text(rule.webhook)
            } else {
                None
            }),
            texts(r.skipped@) == (if !self.runs_commands && rule.command is Some {
                seq![skipped_text(*rule, COMMAND_SKIPPED@)]
            } else {
                Seq::empty()
            }) + (if !self.sends_webhooks && rule.webhook is Some {
                seq![skipped_text(*rule, WEBHOOK_SKIPPED@)]
            } else {
                Seq::empty()
            }),
    {
        let mut skipped: Vec<String> = Vec::new();
        if !self.runs_commands && rule.command.is_some() {
            skipped.push(skipped_note(rule, COMMAND_SKIPPED));
        }
        if !self.sends_webhooks && rule.webhook.is_some() {
            skipped.push(skipped_note(rule, WEBHOOK_SKIPPED));
        }
        assert(texts(skipped@) =~= (if !self.runs_commands && rule.command is Some {
            seq![skipped_text(*rule, COMMAND_SKIPPED@)]
        } else {
            Seq::empty()
        }) + (if !self.sends_webhooks && rule.webhook is Some {
            seq![skipped_text(*rule, WEBHOOK_SKIPPED@)]
        } else {
            Seq::empty()
        }));
        RulePlan {
            command: if self.runs_commands {
                copy_opt(&rule.command)
            } else {
                None
            },
            webhook: if self.sends_webhooks {
                copy_opt(&rule.webhook)
            } else {
                None
            },
            skipped,
        }
    }

    /// The directory that the command of a rule runs in.
    pub fn cwd_for(&self, rule: &HookRule) -> (r: String)
        ensures
            r@ == (match rule.cwd {
                HookCwd::Project => self.work_dir@,
                HookCwd::ThewayHarness => self.base@,
                HookCwd::Home => self.home@,
            }),
    {
        match rule.cwd {
            HookCwd::Project => self.work_dir.clone(),
            HookCwd::ThewayHarness => self.base.clone(),
            HookCwd::Home => self.home.clone(),
        }
    }
}

// What a command and a webhook gave.

/// What a command wrote.
#[derive(Debug)]
pub struct HookCommandOutput {
    pub stdout: String,
    pub stderr: String,
}

impl Default for HookCommandOutput {
    fn default() -> (r: HookCommandOutput)
        ensures
            r.stdout@.len() == 0,
            r.stderr@.len() == 0,
    {
        HookCommandOutput { stdout: String::new(), stderr: String::new() }
    }
}

/// Why a command was stopped.
#[derive(Clone, Copy, Debug, PartialEq, Eq, Structural)]
pub enum KillReason {
    Cancelled,
    TimedOut,
}

/// How a command ended.
#[derive(Debug)]
pub struct CommandEnd {
    pub kill_reason: Option<KillReason>,
    pub exit_code: Option<i32>,
    pub stdout: String,
    pub stderr: String,
}

/// What comes of a command: what it wrote, where it ended with the code zero.
pub fn command_result(end: &CommandEnd, timeout_ms: u64) -> (r: Result<HookCommandOutput, String>)
    ensures
        match end.kill_reason {
            Some(KillReason::Cancelled) => r matches Err(e) && e@ == "cancelled"@,
            Some(KillReason::TimedOut) => r matches Err(e) && e@ == "timed out after "@ + digits(
                timeout_ms as nat,
            ) + "ms"@,
            None => match end.exit_code {
                None => r matches Err(e) && e@ == "command failed to produce an exit code"@,
                Some(code) => if code == 0 {
                    r matches Ok(out) && out.stdout@ == end.stdout@ && out.stderr@ == end.stderr@
                } else {
                    r matches Err(e) && e@ == "command exited "@ + signed_digits(code as int)
                        + ": "@ + trimmed(end.stderr@)
                },
            },
        },
{
    match end.kill_reason {
        Some(KillReason::Cancelled) => Err(owned("cancelled")),
        Some(KillReason::TimedOut) => {
            let mut e = owned("timed out after ");
            e.push_str(decimal(timeout_ms).as_str());
            e.push_str("ms");
            Err(e)
        },
        None => match end.exit_code {
            None => Err(owned("command failed to produce an exit code")),
            Some(code) => if code == 0 {
                Ok(HookCommandOutput { stdout: end.stdout.clone(), stderr: end.stderr.clone() })
            } else {
                let mut e = owned("command exited ");
                e.push_str(decimal_signed(code as i64).as_str());
                e.push_str(": ");
                e.push_str(trim(end.stderr.as_str()).as_str());
                Err(e)
            },
        },
    }
}

/// What comes of a webhook, given the status of the answer and the text of one that is no
/// success.
pub fn webhook_result(success: bool, status: &str, text: &str) -> (r: Result<(), String>)
    ensures
        if success {
            r is Ok
        } else {
            r matches Err(e) && e@ == "webhook status "@ + status@ + ": "@ + cut(text@, 500)
        },
{
    if success {
        return Ok(());
    }
    let mut e = owned("webhook status ");
    e.push_str(status);
    e.push_str(": ");
    e.push_str(take_chars(text, 500).as_str());
    Err(e)
}

// Laws.

proof fn lemma_accepted(cfgs: Seq<HookRuleConfig>, source: Seq<char>, n: int, i: int)
    requires
        0 <= n <= cfgs.len(),
        0 <= i < accepted(cfgs, source, n).len(),
    ensures
        ({
            let rule = accepted(cfgs, source, n)[i];
            rule.source == source && (rule.command is Some || rule.webhook is Some)
        }),
    decreases n,
{
    if n > 0 {
        let before = accepted(cfgs, source, n - 1);
        if i < before.len() {
            lemma_accepted(cfgs, source, n - 1, i);
        }
    }
}

/// Where the project's hooks are not allowed, only rules of the user are in force.
pub proof fn law_project_hooks_need_permission(files: HookFiles, i: int)
    requires
        !project_allowed(opt_text(files.allow_env), files.user),
        0 <= i < loaded_rules(files).len(),
    ensures
        loaded_rules(files)[i].source == "user"@,
{
    match files.user {
        FileRead::Parsed(file) => {
            lemma_accepted(file.hooks@, "user"@, file.hooks@.len() as int, i);
        },
        _ => {},
    }
}

/// Every rule that is in force has something to do: a command or a webhook.
pub proof fn law_loaded_rules_do_something(files: HookFiles, i: int)
    requires
        0 <= i < loaded_rules(files).len(),
    ensures
        loaded_rules(files)[i].command is Some || loaded_rules(files)[i].webhook is Some,
{
    let user = file_rules("user"@, files.user);
    if i < user.len() {
        match files.user {
            FileRead::Parsed(file) => {
                lemma_accepted(file.hooks@, "user"@, file.hooks@.len() as int, i);
            },
            _ => {},
        }
    } else {
        match files.project {
            FileRead::Parsed(file) => {
                lemma_accepted(
                    file.hooks@,
                    "project"@,
                    file.hooks@.len() as int,
                    i - user.len(),
                );
            },
            _ => {},
        }
    }
}

proof fn lemma_firing(rules: Seq<HookRuleView>, data: EventDataView, n: int, k: int)
    requires
        0 <= n <= rules.len(),
    ensures
        firing(rules, data, n).contains(k) <==> 0 <= k < n && fires(rules[k], data),
    decreases n,
{
    if n > 0 {
        lemma_firing(rules, data, n - 1, k);
        let before = firing(rules, data, n - 1);
        let all = firing(rules, data, n);
        if fires(rules[n - 1], data) {
            assert(all[before.len() as int] == n - 1);
            if before.contains(k) {
                let j = choose|j: int| 0 <= j < before.len() && before[j] == k;
                assert(all[j] == k);
            }
            if all.contains(k) && k != n - 1 {
                let j = choose|j: int| 0 <= j < all.len() && all[j] == k;
                assert(before[j] == k);
            }
        }
    }
}

/// Exactly the rules that match an event run on it.
pub proof fn law_matching_rules_run(rules: Seq<HookRuleView>, data: EventDataView, k: int)
    requires
        0 <= k < rules.len(),
    ensures
        firing(rules, data, rules.len() as int).contains(k) <==> fires(rules[k], data),
{
    lemma_firing(rules, data, rules.len() as int, k);
}

/// A rule fires on its own event and on no other; where it names a tool, it fires on every
/// event of that tool and on those of no other. This holds for every kind of event alike, and
/// nothing else of the event counts.
pub proof fn law_rules_fire_on_their_event_and_tool(
    rule: HookRuleView,
    data: EventDataView,
    name: Seq<char>,
)
    ensures
        rule.event != data.event ==> !fires(rule, data),
        rule.event == data.event && rule.tool is None ==> fires(rule, data),
        rule.event == data.event && rule.tool == Some(name) ==> (fires(rule, data)
            <==> data.tool_name == Some(name)),
{
}

/// A rule for a tool fires at the start, at every update and at the end of a call of that tool,
/// by the event that it watches.
pub proof fn law_rules_for_a_tool_fire_on_its_calls(
    rule: HookRuleView,
    event: LoopEvent,
    data: EventDataView,
)
    requires
        agent_event_data(event) == Some(data),
        rule.tool is Some,
    ensures
        fires(rule, data) <==> match event {
            LoopEvent::ToolExecutionStart { tool_name, .. } => rule.event == HookEvent::ToolStart
                && rule.tool == Some(tool_name@),
            LoopEvent::ToolExecutionUpdate { tool_name, .. } => rule.event == HookEvent::ToolUpdate
                && rule.tool == Some(tool_name@),
            LoopEvent::ToolExecutionEnd { tool_name, .. } => rule.event == HookEvent::ToolEnd
                && rule.tool == Some(tool_name@),
            _ => false,
        },
{
}

/// A rule that names no tool fires exactly on the events of its kind.
pub proof fn law_rules_without_a_tool_fire_on_their_kind(
    rule: HookRuleView,
    event: LoopEvent,
    data: EventDataView,
)
    requires
        agent_event_data(event) == Some(data),
        rule.tool is None,
    ensures
        fires(rule, data) <==> rule.event == match event {
            LoopEvent::RunStarted => HookEvent::AgentStart,
            LoopEvent::RunEnded => HookEvent::AgentEnd,
            LoopEvent::TurnStart => HookEvent::TurnStart,
            LoopEvent::TurnCompleted { .. } => HookEvent::TurnEnd,
            LoopEvent::MessageStart { .. } => HookEvent::MessageStart,
            LoopEvent::MessageUpdate { .. } => HookEvent::MessageUpdate,
            LoopEvent::MessageEnd { .. } => HookEvent::MessageEnd,
            LoopEvent::ToolExecutionStart { .. } => HookEvent::ToolStart,
            LoopEvent::ToolExecutionUpdate { .. } => HookEvent::ToolUpdate,
            LoopEvent::ToolExecutionEnd { .. } => HookEvent::ToolEnd,
            LoopEvent::ControlPlanePromptResolved => data.event,
        },
{
}

proof fn lemma_firing_ascends(rules: Seq<HookRuleView>, data: EventDataView, n: int)
    requires
        0 <= n <= rules.len(),
    ensures
        forall|i: int, j: int|
            #![trigger firing(rules, data, n)[i], firing(rules, data, n)[j]]
            0 <= i < j < firing(rules, data, n).len() ==> firing(rules, data, n)[i] < firing(
                rules,
                data,
                n,
            )[j],
        forall|i: int|
            0 <= i < firing(rules, data, n).len() ==> 0 <= #[trigger] firing(rules, data, n)[i]
                < n,
    decreases n,
{
    if n > 0 {
        lemma_firing_ascends(rules, data, n - 1);
        let before = firing(rules, data, n - 1);
        let all = firing(rules, data, n);
        assert forall|i: int| 0 <= i < all.len() implies 0 <= #[trigger] all[i] < n by {
            if i < before.len() {
                assert(all[i] == before[i]);
            }
        }
        assert forall|i: int, j: int|
            #![trigger all[i], all[j]]
            0 <= i < j < all.len() implies all[i] < all[j] by {
            assert(all[i] == before[i]);
            if j < before.len() {
                assert(all[j] == before[j]);
            }
        }
    }
}

/// An event sets off exactly the rules of its kind that name its tool or none, in the order of
/// the rules, and each once.
pub proof fn law_events_set_off_their_rules_in_order(
    rules: Seq<HookRuleView>,
    data: EventDataView,
)
    ensures
        ({
            let set_off = firing(rules, data, rules.len() as int);
            &&& forall|k: int|
                #[trigger] set_off.contains(k) <==> 0 <= k < rules.len() && rules[k].event
                    == data.event && (rules[k].tool is None || rules[k].tool == data.tool_name)
            &&& forall|i: int, j: int|
                #![trigger set_off[i], set_off[j]]
                0 <= i < j < set_off.len() ==> set_off[i] < set_off[j]
        }),
{
    let n = rules.len() as int;
    let set_off = firing(rules, data, n);
    lemma_firing_ascends(rules, data, n);
    assert forall|k: int|
        #[trigger] set_off.contains(k) <==> 0 <= k < rules.len() && rules[k].event == data.event
            && (rules[k].tool is None || rules[k].tool == data.tool_name) by {
        lemma_firing(rules, data, n, k);
    }
}

/// A rule of a file is in force exactly where it is not disabled, its event has a name, and it
/// has a webhook or a command that is not blank; it then says what the file says, and the
/// defaults stand where the file says nothing.
pub proof fn law_rules_say_what_their_file_says(cfg: HookRuleConfig, source: Seq<char>, at: int)
    ensures
        rule_result(cfg, source, at) is Accepted <==> {
            &&& cfg.enabled != Some(false)
            &&& exists|e: HookEvent| #[trigger] event_name(e) == cfg.event@
            &&& cfg.webhook is Some || (cfg.command matches Some(c) && trimmed(c@).len() > 0)
        },
        rule_result(cfg, source, at) is Disabled <==> cfg.enabled == Some(false),
        rule_result(cfg, source, at) matches RuleResult::Accepted(rule) ==> {
            &&& event_name(rule.event) == cfg.event@
            &&& rule.tool == opt_text(cfg.tool)
            &&& rule.webhook == opt_text(cfg.webhook)
            &&& rule.command is Some ==> (cfg.command matches Some(c) && rule.command == Some(c@))
            &&& (cfg.command matches Some(c) && trimmed(c@).len() > 0) ==> rule.command is Some
            &&& rule.headers == header_views(cfg.headers@)
            &&& cfg.timeout_ms is Some ==> rule.timeout_ms == cfg.timeout_ms->0
            &&& cfg.timeout_ms is None ==> rule.timeout_ms == 5_000
            &&& cfg.cwd is Some ==> rule.cwd == cfg.cwd->0
            &&& cfg.cwd is None ==> rule.cwd == HookCwd::Project
            &&& cfg.on_failure is Some ==> rule.on_failure == cfg.on_failure->0
            &&& cfg.on_failure is None ==> rule.on_failure == OnFailure::Warn
            &&& rule.source == source
        },
{
    if exists|e: HookEvent| #[trigger] event_name(e) == cfg.event@ {
        let e = choose|e: HookEvent| #[trigger] event_name(e) == cfg.event@;
        law_event_names_round_trip(e);
    }
    if let Some(e) = event_named(cfg.event@) {
        law_only_event_names_are_read(cfg.event@);
        assert(event_name(e) == cfg.event@);
    }
}

proof fn lemma_accepted_grows(cfgs: Seq<HookRuleConfig>, source: Seq<char>, m: int, n: int)
    requires
        0 <= m <= n <= cfgs.len(),
    ensures
        accepted(cfgs, source, m).is_prefix_of(accepted(cfgs, source, n)),
        refusals(cfgs, source, m).is_prefix_of(refusals(cfgs, source, n)),
    decreases n - m,
{
    if m < n {
        lemma_accepted_grows(cfgs, source, m, n - 1);
    }
}

/// Every rule of a file that counts is in force, behind those before it in the file; every
/// other one that is not disabled is told of. Nothing else is in force or told of.
pub proof fn law_each_rule_is_in_force_or_told_of(
    cfgs: Seq<HookRuleConfig>,
    source: Seq<char>,
    i: int,
)
    requires
        0 <= i < cfgs.len(),
    ensures
        ({
            let rules = accepted(cfgs, source, cfgs.len() as int);
            let told = refusals(cfgs, source, cfgs.len() as int);
            let before = accepted(cfgs, source, i).len() as int;
            let told_before = refusals(cfgs, source, i).len() as int;
            &&& match rule_result(cfgs[i], source, i) {
                RuleResult::Accepted(rule) => before < rules.len() && rules[before] == rule,
                RuleResult::Refused(note) => told_before < told.len() && told[told_before] == note,
                RuleResult::Disabled => true,
            }
            &&& rules.len() + told.len() <= cfgs.len()
        }),
{
    let n = cfgs.len() as int;
    lemma_accepted_grows(cfgs, source, i + 1, n);
    lemma_rules_are_counted(cfgs, source, n);
    let rules = accepted(cfgs, source, n);
    let told = refusals(cfgs, source, n);
    let first = accepted(cfgs, source, i + 1);
    let noted = refusals(cfgs, source, i + 1);
    assert(rules.take(first.len() as int) =~= first);
    assert(told.take(noted.len() as int) =~= noted);
    match rule_result(cfgs[i], source, i) {
        RuleResult::Accepted(rule) => {
            assert(first.last() == rule);
            assert(rules.take(first.len() as int)[first.len() - 1] == rules[first.len() - 1]);
        },
        RuleResult::Refused(note) => {
            assert(noted.last() == note);
            assert(told.take(noted.len() as int)[noted.len() - 1] == told[noted.len() - 1]);
        },
        RuleResult::Disabled => {},
    }
}

proof fn lemma_rules_are_counted(cfgs: Seq<HookRuleConfig>, source: Seq<char>, n: int)
    requires
        0 <= n <= cfgs.len(),
    ensures
        accepted(cfgs, source, n).len() + refusals(cfgs, source, n).len() <= n,
    decreases n,
{
    if n > 0 {
        lemma_rules_are_counted(cfgs, source, n - 1);
    }
}

/// The rules of the user stand first, and those of the project behind them where the user's
/// file or the environment allows them.
pub proof fn law_user_rules_stand_before_those_of_the_project(
    files: HookFiles,
    user: HooksFile,
    project: HooksFile,
)
    requires
        files.user == FileRead::Parsed(user),
        files.project == FileRead::Parsed(project),
    ensures
        ({
            let of_user = accepted(user.hooks@, "user"@, user.hooks@.len() as int);
            let of_project = accepted(project.hooks@, "project"@, project.hooks@.len() as int);
            let allowed = user.allow_project_hooks || (files.allow_env matches Some(v) && (v@
                == "1"@ || ascii_lowered(v@) == "true"@));
            &&& allowed ==> loaded_rules(files) == of_user + of_project
            &&& !allowed ==> loaded_rules(files) == of_user
        }),
{
    let of_user = accepted(user.hooks@, "user"@, user.hooks@.len() as int);
    assert(of_user + Seq::<HookRuleView>::empty() =~= of_user);
}

/// What a hook is told of a call of a tool is what the event says of it.
pub proof fn law_payloads_tell_of_the_event(
    p: HookPayload,
    runner: HookRunner,
    rule: HookRule,
    data: EventDataView,
)
    requires
        tells(p, runner, rule, data),
    ensures
        p.event@ == event_name(data.event),
        opt_text(p.tool_name) == data.tool_name,
        opt_text(p.tool_call_id) == data.tool_call_id,
        opt_text(p.tool_result_summary) == data.tool_result_summary,
        opt_json(p.tool_args) == data.tool_args,
        p.tool_is_error == data.tool_is_error,
        opt_text(p.message_kind) == data.message_kind,
        opt_text(p.message_summary) == data.message_summary,
        opt_text(p.assistant_event) == data.assistant_event,
        opt_text(p.compaction_trigger) == data.compaction_trigger,
        opt_text(p.compaction_summary) == data.compaction_summary,
        p.compaction_tokens_before == data.compaction_tokens_before,
        p.session_id@ == runner.session_id@,
        p.cwd@ == runner.work_dir@,
        p.model_provider@ == runner.model_provider@,
        p.model_id@ == runner.model_id@,
        p.thinking_level@ == runner.thinking_level@,
        opt_text(p.source) == Some(rule.source@),
{
}

/// A rule that cannot run for want of an executor is noted once for its kind, and nothing else
/// is.
pub proof fn law_rules_that_cannot_run_are_noted(
    rules: Seq<HookRuleView>,
    command: bool,
    webhook: bool,
    i: int,
)
    requires
        0 <= i < rules.len(),
    ensures
        rules[i].command is Some && !command ==> executor_notes(rules, command, webhook).contains(
            NO_COMMAND_EXECUTOR@,
        ),
        rules[i].webhook is Some && !webhook ==> executor_notes(rules, command, webhook).contains(
            NO_WEBHOOK_SENDER@,
        ),
        command && webhook ==> executor_notes(rules, command, webhook).len() == 0,
        command ==> executor_notes(rules, command, webhook) == executor_notes(
            rules.map_values(|r: HookRuleView| HookRuleView { command: None, ..r }),
            false,
            webhook,
        ),
        webhook ==> executor_notes(rules, command, webhook) == executor_notes(
            rules.map_values(|r: HookRuleView| HookRuleView { webhook: None, ..r }),
            command,
            false,
        ),
{
    let notes = executor_notes(rules, command, webhook);
    if rules[i].command is Some && !command {
        assert(has_command(rules));
        assert(notes[0] == NO_COMMAND_EXECUTOR@);
    }
    if rules[i].webhook is Some && !webhook {
        assert(has_webhook(rules));
        assert(notes[notes.len() - 1] == NO_WEBHOOK_SENDER@);
    }
    let no_commands = rules.map_values(|r: HookRuleView| HookRuleView { command: None, ..r });
    let no_webhooks = rules.map_values(|r: HookRuleView| HookRuleView { webhook: None, ..r });
    assert(!has_command(no_commands));
    assert(!has_webhook(no_webhooks));
    assert(has_webhook(no_commands) <==> has_webhook(rules)) by {
        if has_webhook(rules) {
            let j = choose|j: int| 0 <= j < rules.len() && (#[trigger] rules[j]).webhook is Some;
            assert(no_commands[j].webhook is Some);
        }
        if has_webhook(no_commands) {
            let j = choose|j: int|
                0 <= j < no_commands.len() && (#[trigger] no_commands[j]).webhook is Some;
            assert(rules[j].webhook is Some);
        }
    }
    assert(has_command(no_webhooks) <==> has_command(rules)) by {
        if has_command(rules) {
            let j = choose|j: int| 0 <= j < rules.len() && (#[trigger] rules[j]).command is Some;
            assert(no_webhooks[j].command is Some);
        }
        if has_command(no_webhooks) {
            let j = choose|j: int|
                0 <= j < no_webhooks.len() && (#[trigger] no_webhooks[j]).command is Some;
            assert(rules[j].command is Some);
        }
    }
}

/// A project's file that does not count is told of last, by its path, whatever it holds; one
/// that is missing is not told of.
pub proof fn law_ignored_projects_are_told_of(files: HookFiles, other: HookFiles)
    requires
        files.user == other.user,
        files.user_path@ == other.user_path@,
        files.project_path@ == other.project_path@,
        !project_allowed(opt_text(files.allow_env), files.user),
        !project_allowed(opt_text(other.allow_env), other.user),
        files.project is Missing == other.project is Missing,
    ensures
        loaded_notes(files) == loaded_notes(other),
        !(files.project is Missing) ==> loaded_notes(files).len() > 0 && loaded_notes(files).last()
            == "project hooks ignored at "@ + files.project_path@
            + "; set allow_project_hooks = true in "@ + files.user_path@
            + " or THEWAY_ALLOW_PROJECT_HOOKS=1"@,
        files.project is Missing ==> loaded_notes(files) == read_notes(
            files.user_path@,
            "user"@,
            files.user,
        ) + file_refusals("user"@, files.user),
{
}

} // verus!
