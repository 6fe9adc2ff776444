//! The settings that a daemon starts with, and the model that it starts with.
//!
//! What the command line says wins over what the controller has set, which wins over what
//! is built in.

use crate::executor::{invalid_kind_text, parse_executor_kind, ExecutorKind};
use crate::model::{auto_detect_model, not_found_text, CatalogEntry, Model};
use crate::model_defaults::nonempty;
use crate::orchestration::startup::DaemonOptions;
use crate::text::{
    ascii_lowered, decimal_size, digits, is_white, law_trimming_takes_the_white_space_away,
    opt_text, owned, trim, trimmed,
};
use crate::text_map::TextMap;
use vstd::prelude::*;

verus! {

/// The provider and the model that the controller has set.
#[derive(Debug)]
pub struct ModelDefault {
    pub provider: String,
    pub model: String,
}

/// The settings of a running daemon.
#[derive(Debug)]
pub struct StartupConfig {
    pub trigger_poll_secs: u64,
    pub executor_kind: ExecutorKind,
    pub tgrep_enabled: bool,
    pub api_key: Option<String>,
    pub auto_fetch_models: bool,
    pub storage_service_addr: Option<String>,
    /// Whether the daemon reads configuration, skills and templates from the disk itself.
    pub load_local_sources: bool,
    /// The level of thinking by its name.
    pub thinking_level: Option<String>,
    pub provider: Option<String>,
    pub base_url: Option<String>,
    pub model_default: Option<ModelDefault>,
    pub builtin_skills: Vec<String>,
    /// From how many characters on thinking is summarized, where it is.
    pub summary_min_chars: Option<usize>,
}

/// The kind that a setting names.
pub open spec fn kind_named(raw: Seq<char>) -> Option<ExecutorKind> {
    let name = ascii_lowered(trimmed(raw));
    if name == "local"@ {
        Some(ExecutorKind::Local)
    } else if name == "sandbox"@ {
        Some(ExecutorKind::Sandbox)
    } else {
        None
    }
}

/// Whether settings are those that options and defaults give.
pub open spec fn are_settings(
    s: StartupConfig,
    options: DaemonOptions,
    defaults: StartupConfig,
) -> bool {
    &&& s.trigger_poll_secs == (match options.trigger_poll_secs {
        Some(secs) => secs,
        None => defaults.trigger_poll_secs,
    })
    &&& match options.executor_kind {
        Some(raw) => kind_named(raw@) == Some(s.executor_kind),
        None => s.executor_kind == defaults.executor_kind,
    }
    &&& s.tgrep_enabled == (defaults.tgrep_enabled && !options.no_tgrep)
    &&& opt_text(s.api_key) == (if options.api_key is Some {
        opt_text(options.api_key)
    } else {
        opt_text(defaults.api_key)
    })
    &&& s.auto_fetch_models == (defaults.auto_fetch_models || options.auto_fetch_models)
    &&& opt_text(s.storage_service_addr) == opt_text(options.storage_service_addr)
    &&& s.load_local_sources == (defaults.load_local_sources
        && options.storage_service_addr is None && s.executor_kind == ExecutorKind::Local)
    &&& s.thinking_level == defaults.thinking_level
    &&& s.provider == defaults.provider
    &&& s.base_url == defaults.base_url
    &&& s.model_default == defaults.model_default
    &&& s.builtin_skills == defaults.builtin_skills
    &&& s.summary_min_chars == defaults.summary_min_chars
}

/// The settings that a daemon starts with. They fail only on an execution environment that
/// is not known.
pub fn startup_config_from_options(options: &DaemonOptions, defaults: StartupConfig) -> (r: Result<
    StartupConfig,
    String,
>)
    ensures
        match r {
            Ok(s) => are_settings(s, *options, defaults),
            Err(e) => options.executor_kind matches Some(raw) && kind_named(raw@) is None && e@
                == invalid_kind_text(ascii_lowered(trimmed(raw@))),
        },
        options.executor_kind matches Some(raw) && kind_named(raw@) is None ==> r is Err,
{
    let mut s = defaults;
    if let Some(secs) = options.trigger_poll_secs {
        s.trigger_poll_secs = secs;
    }
    if let Some(raw) = &options.executor_kind {
        match parse_executor_kind(raw.as_str()) {
            Ok(kind) => {
                s.executor_kind = kind;
            },
            Err(e) => {
                return Err(e);
            },
        }
    }
    if options.no_tgrep {
        s.tgrep_enabled = false;
    }
    if let Some(key) = &options.api_key {
        s.api_key = Some(key.clone());
    }
    if options.auto_fetch_models {
        s.auto_fetch_models = true;
    }
    s.storage_service_addr = match &options.storage_service_addr {
        Some(addr) => Some(addr.clone()),
        None => None,
    };
    if options.storage_service_addr.is_some() {
        s.load_local_sources = false;
    }
    if s.executor_kind == ExecutorKind::Sandbox {
        s.load_local_sources = false;
    }
    Ok(s)
}

pub const THINKING_OFF: &'static str = "off";

/// The level of thinking that the first session has: the one of the command line, unless
/// that is off.
pub fn launch_thinking(options: &DaemonOptions, startup: &StartupConfig) -> (r: String)
    ensures
        r@ == (if options.thinking@ == THINKING_OFF@ {
            match startup.thinking_level {
                Some(level) => level@,
                None => THINKING_OFF@,
            }
        } else {
            options.thinking@
        }),
{
    if options.thinking.as_str().eq(THINKING_OFF) {
        match &startup.thinking_level {
            Some(level) => level.clone(),
            None => owned(THINKING_OFF),
        }
    } else {
        options.thinking.clone()
    }
}

// The catalog of models.

pub const KEY_WITHOUT_PROVIDER: &'static str =
    "`[model] api_key` is set without `[model] provider`; the key is ignored";

pub const FETCH_NEEDS_PROVIDER: &'static str = "auto-fetch models: `[model] provider` is required";

pub const FETCH_NEEDS_BASE_URL: &'static str =
    "auto-fetch models: `[model] base_url` (or --base-url) is required";

/// Remembers the key that the settings hold for their provider, and gives the warning where
/// there is a key without a provider.
pub fn seed_api_keys(startup: &StartupConfig, keys: &mut TextMap<String>) -> (r: Option<String>)
    ensures
        match (startup.provider, startup.api_key) {
            (Some(provider), Some(key)) => {
                &&& r is None
                &&& final(keys)@.dom() == old(keys)@.dom().insert(provider@)
                &&& final(keys)@[provider@]@ == key@
                &&& forall|p: Seq<char>|
                    p != provider@ && #[trigger] old(keys)@.dom().contains(p) ==> final(keys)@[p]
                        == old(keys)@[p]
            },
            (None, Some(_)) => {
                &&& r matches Some(w) && w@ == KEY_WITHOUT_PROVIDER@
                &&& *final(keys) == *old(keys)
            },
            (_, None) => r is None && *final(keys) == *old(keys),
        },
{
    match (&startup.provider, &startup.api_key) {
        (Some(provider), Some(key)) => {
            keys.insert(provider.clone(), key.clone());
            assert(keys@.dom() =~= old(keys)@.dom().insert(provider@));
            None
        },
        (None, Some(_)) => Some(owned(KEY_WITHOUT_PROVIDER)),
        (_, None) => None,
    }
}

/// Whether the catalog of a provider is fetched.
#[derive(Debug)]
pub enum FetchDecision {
    Skip,
    /// It was asked for, and cannot be.
    Warn(String),
    Fetch { provider: String, base_url: String },
}

/// The address that models are fetched from: the one of the command line, else the one of
/// the settings.
pub open spec fn fetch_address(cli_base_url: Option<String>, startup: StartupConfig) -> Option<Seq<char>> {
    match cli_base_url {
        Some(url) => Some(url@),
        None => opt_text(startup.base_url),
    }
}

/// Whether the catalog of a provider is fetched at the start.
pub fn fetch_decision(startup: &StartupConfig, cli_base_url: &Option<String>) -> (r: FetchDecision)
    ensures
        if !startup.auto_fetch_models {
            r is Skip
        } else {
            match (startup.provider, fetch_address(*cli_base_url, *startup)) {
                (None, _) => r matches FetchDecision::Warn(w) && w@ == FETCH_NEEDS_PROVIDER@,
                (Some(_), None) => r matches FetchDecision::Warn(w) && w@ == FETCH_NEEDS_BASE_URL@,
                (Some(p), Some(url)) => r matches FetchDecision::Fetch { provider, base_url }
                    && provider@ == p@ && base_url@ == url,
            }
        },
{
    if !startup.auto_fetch_models {
        return FetchDecision::Skip;
    }
    let provider = match &startup.provider {
        Some(p) => p.clone(),
        None => {
            return FetchDecision::Warn(owned(FETCH_NEEDS_PROVIDER));
        },
    };
    match (cli_base_url, &startup.base_url) {
        (Some(url), _) => FetchDecision::Fetch { provider, base_url: url.clone() },
        (None, Some(url)) => FetchDecision::Fetch { provider, base_url: url.clone() },
        (None, None) => FetchDecision::Warn(owned(FETCH_NEEDS_BASE_URL)),
    }
}

/// What follows from a fetch.
#[derive(Debug)]
pub struct FetchOutcome {
    /// Whether the models are made known.
    pub register: bool,
    pub log: String,
}

pub open spec fn fetched_text(count: nat, base_url: Seq<char>) -> Seq<char> {
    "auto-fetched "@ + digits(count) + " model(s) from "@ + base_url
}

pub open spec fn fetch_failed_text(base_url: Seq<char>, error: Seq<char>) -> Seq<char> {
    "auto-fetch models from "@ + base_url + ": "@ + error
}

fn fetch_failed(base_url: &str, error: &str) -> (r: String)
    ensures
        r@ == fetch_failed_text(base_url@, error@),
{
    let mut r = owned("auto-fetch models from ");
    r.push_str(base_url);
    r.push_str(": ");
    r.push_str(error);
    r
}

/// Takes what a fetch gave. The first model becomes the default where there is none. A
/// failure never keeps the daemon from starting.
pub fn apply_fetched(
    startup: &mut StartupConfig,
    provider: &str,
    base_url: &str,
    fetched: &Result<Vec<Model>, String>,
) -> (r: FetchOutcome)
    ensures
        *final(startup) == (StartupConfig {
            model_default: final(startup).model_default,
            ..*old(startup)
        }),
        match *fetched {
            Ok(models) => if models@.len() > 0 {
                &&& r.register
                &&& r.log@ == fetched_text(models@.len(), base_url@)
                &&& if old(startup).model_default is None {
                    final(startup).model_default matches Some(d) && d.provider@ == provider@
                        && d.model@ == models@[0].id@
                } else {
                    final(startup).model_default == old(startup).model_default
                }
            } else {
                &&& !r.register
                &&& r.log@ == fetch_failed_text(base_url@, "empty catalog"@)
                &&& final(startup).model_default == old(startup).model_default
            },
            Err(e) => {
                &&& !r.register
                &&& r.log@ == fetch_failed_text(base_url@, e@)
                &&& final(startup).model_default == old(startup).model_default
            },
        },
{
    match fetched {
        Ok(models) => {
            if models.len() == 0 {
                return FetchOutcome { register: false, log: fetch_failed(base_url, "empty catalog") };
            }
            if startup.model_default.is_none() {
                startup.model_default =
                Some(ModelDefault { provider: owned(provider), model: models[0].id.clone() });
            }
            let mut log = owned("auto-fetched ");
            log.push_str(decimal_size(models.len()).as_str());
            log.push_str(" model(s) from ");
            log.push_str(base_url);
            FetchOutcome { register: true, log }
        },
        Err(e) => FetchOutcome { register: false, log: fetch_failed(base_url, e.as_str()) },
    }
}

// The model that the daemon starts with.

/// The provider and the model that are looked up. The command line decides as soon as it
/// names one of the two; both are needed.
pub open spec fn model_choice(
    cli_provider: Option<String>,
    cli_model: Option<String>,
    startup: StartupConfig,
) -> Option<(Seq<char>, Seq<char>)> {
    if cli_provider is Some || cli_model is Some {
        match (cli_provider, cli_model) {
            (Some(provider), Some(model)) => Some((provider@, model@)),
            _ => None,
        }
    } else {
        match startup.model_default {
            Some(d) => Some((d.provider@, d.model@)),
            None => None,
        }
    }
}

pub open spec fn pair_text(o: Option<(String, String)>) -> Option<(Seq<char>, Seq<char>)> {
    match o {
        Some((a, b)) => Some((a@, b@)),
        None => None,
    }
}

/// The provider and the model that are looked up, where there are both.
pub fn startup_model_request(
    cli_provider: &Option<String>,
    cli_model: &Option<String>,
    startup: &StartupConfig,
) -> (r: Option<(String, String)>)
    ensures
        pair_text(r) == model_choice(*cli_provider, *cli_model, *startup),
{
    match (cli_provider, cli_model) {
        (Some(provider), Some(model)) => Some((provider.clone(), model.clone())),
        (None, None) => match &startup.model_default {
            Some(d) => Some((d.provider.clone(), d.model.clone())),
            None => None,
        },
        _ => None,
    }
}

/// The address that takes the place of the model's: the one of the command line, unless it
/// is blank, else the one of the settings.
pub open spec fn model_address(cli_base_url: Option<String>, startup: StartupConfig) -> Option<Seq<char>> {
    match nonempty(cli_base_url) {
        Some(url) => Some(url),
        None => opt_text(startup.base_url),
    }
}

fn address_override(cli_base_url: &Option<String>, startup: &StartupConfig) -> (r: Option<String>)
    ensures
        opt_text(r) == model_address(*cli_base_url, *startup),
{
    if let Some(url) = cli_base_url {
        let url = trim(url.as_str());
        if !url.as_str().is_empty() {
            return Some(url);
        }
    }
    match &startup.base_url {
        Some(url) => Some(url.clone()),
        None => None,
    }
}

/// The model that the daemon starts with, given what the catalog has under the provider and
/// the model that are looked up. A daemon without them starts without a model.
pub fn resolve_startup_model(
    cli_provider: &Option<String>,
    cli_model: &Option<String>,
    cli_base_url: &Option<String>,
    startup: &StartupConfig,
    found: Option<Model>,
    catalog: &Vec<CatalogEntry>,
) -> (r: Result<Option<Model>, String>)
    ensures
        match model_choice(*cli_provider, *cli_model, *startup) {
            None => r matches Ok(m) && m is None,
            Some((provider, id)) => match found {
                Some(f) => r matches Ok(Some(m)) && match model_address(*cli_base_url, *startup) {
                    Some(url) => m == (Model { base_url: m.base_url, ..f }) && m.base_url@ == url,
                    None => m == f,
                },
                None => r matches Err(e) && e@ == not_found_text(provider, id, true, catalog@),
            },
        },
{
    let (provider, id) = match startup_model_request(cli_provider, cli_model, startup) {
        Some(pair) => pair,
        None => {
            return Ok(None);
        },
    };
    match auto_detect_model(&Some(provider), &Some(id), found, catalog) {
        Ok(m) => {
            let mut model = m;
            if let Some(url) = address_override(cli_base_url, startup) {
                model.base_url = url;
            }
            Ok(Some(model))
        },
        Err(e) => Err(e),
    }
}

// Laws.

/// A daemon that a controller provides for, or that runs in a sandbox, never reads
/// configuration, skills or templates from the disk.
pub proof fn law_provided_and_sandboxed_daemons_read_no_local_sources(
    s: StartupConfig,
    options: DaemonOptions,
    defaults: StartupConfig,
)
    requires
        are_settings(s, options, defaults),
        s.storage_service_addr is Some || s.executor_kind == ExecutorKind::Sandbox,
    ensures
        !s.load_local_sources,
{
}

/// One of provider and model on the command line sets the default of the settings aside, and
/// is not enough by itself.
pub proof fn law_half_a_choice_is_no_model(
    cli_provider: Option<String>,
    cli_model: Option<String>,
    startup: StartupConfig,
)
    requires
        cli_provider is Some != cli_model is Some,
    ensures
        model_choice(cli_provider, cli_model, startup) is None,
{
}

/// What is asked for on the command line counts before the defaults, and what is not asked for
/// stays as it is.
pub proof fn law_options_count_before_defaults(
    s: StartupConfig,
    options: DaemonOptions,
    defaults: StartupConfig,
)
    requires
        are_settings(s, options, defaults),
    ensures
        options.trigger_poll_secs is Some ==> s.trigger_poll_secs == options.trigger_poll_secs->0,
        options.trigger_poll_secs is None ==> s.trigger_poll_secs == defaults.trigger_poll_secs,
        options.api_key is Some ==> opt_text(s.api_key) == Some(options.api_key->0@),
        options.api_key is None ==> opt_text(s.api_key) == opt_text(defaults.api_key),
        options.executor_kind is None ==> s.executor_kind == defaults.executor_kind,
        options.no_tgrep ==> !s.tgrep_enabled,
        !options.no_tgrep ==> s.tgrep_enabled == defaults.tgrep_enabled,
        options.auto_fetch_models ==> s.auto_fetch_models,
        !options.auto_fetch_models ==> s.auto_fetch_models == defaults.auto_fetch_models,
        s.load_local_sources <==> defaults.load_local_sources && options.storage_service_addr
            is None && s.executor_kind == ExecutorKind::Local,
{
}

/// The kinds of executors are known by their names, in small letters or capitals, with or
/// without white space around them.
pub proof fn law_executor_kinds_are_known_by_name(
    before: Seq<char>,
    name: Seq<char>,
    after: Seq<char>,
)
    requires
        forall|i: int| 0 <= i < before.len() ==> is_white(#[trigger] before[i]),
        forall|i: int| 0 <= i < after.len() ==> is_white(#[trigger] after[i]),
        name.len() > 0,
        !is_white(name[0]),
        !is_white(name.last()),
    ensures
        kind_named(before + name + after) == Some(ExecutorKind::Local) <==> ascii_lowered(name)
            == "local"@,
        kind_named(before + name + after) == Some(ExecutorKind::Sandbox) <==> ascii_lowered(name)
            == "sandbox"@,
{
    reveal_strlit("local");
    reveal_strlit("sandbox");
    law_trimming_takes_the_white_space_away(before, name, after);
    assert("local"@.len() == 5 && "sandbox"@.len() == 7);
}

/// A model that is chosen in whole on the command line counts before the default one.
pub proof fn law_chosen_models_count_before_the_default(
    provider: String,
    model: String,
    startup: StartupConfig,
)
    ensures
        model_choice(Some(provider), Some(model), startup) == Some((provider@, model@)),
        startup.model_default matches Some(d) ==> model_choice(None, None, startup) == Some(
            (d.provider@, d.model@),
        ),
        startup.model_default is None ==> model_choice(None, None, startup) is None,
{
}

/// The address of the command line counts before that of the settings.
pub proof fn law_given_addresses_count_first(url: String, startup: StartupConfig)
    ensures
        fetch_address(Some(url), startup) == Some(url@),
        fetch_address(None, startup) == opt_text(startup.base_url),
        trimmed(url@).len() > 0 ==> model_address(Some(url), startup) == Some(trimmed(url@)),
        trimmed(url@).len() == 0 ==> model_address(Some(url), startup) == opt_text(
            startup.base_url,
        ),
        model_address(None, startup) == opt_text(startup.base_url),
{
}

/// What no option speaks of stays as the defaults have it, and the address of the storage
/// service is the one of the options.
pub proof fn law_other_settings_are_kept(
    s: StartupConfig,
    options: DaemonOptions,
    defaults: StartupConfig,
)
    requires
        are_settings(s, options, defaults),
    ensures
        s.provider == defaults.provider,
        s.base_url == defaults.base_url,
        s.thinking_level == defaults.thinking_level,
        s.model_default == defaults.model_default,
        s.builtin_skills == defaults.builtin_skills,
        s.summary_min_chars == defaults.summary_min_chars,
        opt_text(s.storage_service_addr) == opt_text(options.storage_service_addr),
{
}

} // verus!
