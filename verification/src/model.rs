//! Models: what is known of one, and the choice of the one that was asked for.

use crate::json::Json;
use crate::order::{deduped, dedup_texts, sort_texts, sorted_texts};
use crate::text::{
    decimal_size, digits, join, joined, lemma_texts_empty, lemma_texts_push, owned, texts,
};
use vstd::prelude::*;

verus! {

broadcast use {lemma_texts_push, lemma_texts_empty};

/// What a model takes.
#[derive(Clone, Copy, Debug, PartialEq, Eq, Structural)]
pub enum InputModality {
    Text,
    Image,
}

/// How hard a model thinks.
#[derive(Clone, Copy, Debug, PartialEq, Eq, Structural)]
pub enum ModelThinkingLevel {
    Off,
    Minimal,
    Low,
    Medium,
    High,
    Xhigh,
    Max,
}

/// What is known of a model. Its cost and its headers are left to their defaults.
#[derive(Debug)]
pub struct Model {
    pub id: String,
    pub name: String,
    pub api: String,
    pub provider: String,
    pub base_url: String,
    pub reasoning: bool,
    /// What each level of thinking is called at the server, where it has one.
    pub thinking_level_map: Option<Vec<(ModelThinkingLevel, Option<&'static str>)>>,
    pub input: Vec<InputModality>,
    pub context_window: u64,
    pub max_tokens: u64,
    pub compat: Option<Json>,
}

/// A model that the catalog lists.
#[derive(Debug)]
pub struct CatalogEntry {
    pub provider: String,
    pub id: String,
}

pub const NO_MODEL_SELECTED: &'static str =
    "no model selected. The daemon starts model-less: select a model in the TUI so it can be injected into the session";

pub const DS4_HINT: &'static str =
    " For local DS4, pass --base-url http://127.0.0.1:8000/v1, set DS4_BASE_URL, or add ds4 to ~/.theway/models.json.";

/// How many candidates are named.
pub const MAX_CANDIDATES: usize = 12;

/// The providers of the first `n` models.
pub open spec fn providers_in(catalog: Seq<CatalogEntry>, n: int) -> Seq<Seq<char>>
    decreases n,
{
    if n <= 0 || n > catalog.len() {
        Seq::empty()
    } else {
        providers_in(catalog, n - 1).push(catalog[n - 1].provider@)
    }
}

/// The models of a provider, among the first `n`.
pub open spec fn models_of(catalog: Seq<CatalogEntry>, provider: Seq<char>, n: int) -> Seq<Seq<char>>
    decreases n,
{
    if n <= 0 || n > catalog.len() {
        Seq::empty()
    } else if catalog[n - 1].provider@ == provider {
        models_of(catalog, provider, n - 1).push(catalog[n - 1].id@)
    } else {
        models_of(catalog, provider, n - 1)
    }
}

/// The first `n` providers, each with the number of its models.
pub open spec fn provider_counts(
    catalog: Seq<CatalogEntry>,
    providers: Seq<Seq<char>>,
    n: int,
) -> Seq<Seq<char>>
    decreases n,
{
    if n <= 0 || n > providers.len() {
        Seq::empty()
    } else {
        provider_counts(catalog, providers, n - 1).push(
            providers[n - 1] + "("@ + digits(
                models_of(catalog, providers[n - 1], catalog.len() as int).len(),
            ) + ")"@,
        )
    }
}

/// The refusal of a model that the catalog does not list: candidates of the provider, or the
/// providers that there are.
pub open spec fn not_found_text(
    provider: Seq<char>,
    id: Seq<char>,
    show_local_hint: bool,
    catalog: Seq<CatalogEntry>,
) -> Seq<char> {
    let models = sorted_texts(models_of(catalog, provider, catalog.len() as int));
    if models.len() == 0 {
        let providers = deduped(sorted_texts(providers_in(catalog, catalog.len() as int)));
        "model provider not found in catalog: provider="@ + provider + ". Known providers: "@
            + joined(provider_counts(catalog, providers, providers.len() as int), ", "@) + (
        if show_local_hint && provider == "ds4"@ {
            DS4_HINT@
        } else {
            ""@
        })
    } else {
        "model not found in catalog: provider="@ + provider + " id="@ + id + ". Candidates: "@
            + joined(
            if models.len() <= MAX_CANDIDATES {
                models
            } else {
                models.take(MAX_CANDIDATES as int)
            },
            ", "@,
        ) + (if models.len() > MAX_CANDIDATES {
            "; run `/model list "@ + provider + "` inside theway for all "@ + digits(models.len())
                + " models"@
        } else {
            Seq::empty()
        })
    }
}

fn list_models_of(catalog: &Vec<CatalogEntry>, provider: &str) -> (r: Vec<String>)
    ensures
        texts(r@) == models_of(catalog@, provider@, catalog@.len() as int),
{
    let mut r: Vec<String> = Vec::new();
    let mut i: usize = 0;
    while i < catalog.len()
        invariant
            i <= catalog@.len(),
            texts(r@) == models_of(catalog@, provider@, i as int),
        decreases catalog@.len() - i,
    {
        if catalog[i].provider.as_str().eq(provider) {
            r.push(catalog[i].id.clone());
        }
        i += 1;
    }
    r
}

fn list_providers(catalog: &Vec<CatalogEntry>) -> (r: Vec<String>)
    ensures
        texts(r@) == providers_in(catalog@, catalog@.len() as int),
{
    let mut r: Vec<String> = Vec::new();
    let mut i: usize = 0;
    while i < catalog.len()
        invariant
            i <= catalog@.len(),
            texts(r@) == providers_in(catalog@, i as int),
        decreases catalog@.len() - i,
    {
        r.push(catalog[i].provider.clone());
        i += 1;
    }
    r
}

fn count_providers(catalog: &Vec<CatalogEntry>, providers: &Vec<String>) -> (r: Vec<String>)
    ensures
        texts(r@) == provider_counts(catalog@, texts(providers@), providers@.len() as int),
{
    let mut r: Vec<String> = Vec::new();
    let ghost all = texts(providers@);
    let mut i: usize = 0;
    while i < providers.len()
        invariant
            i <= providers@.len(),
            all == texts(providers@),
            texts(r@) == provider_counts(catalog@, all, i as int),
        decreases providers@.len() - i,
    {
        assert(all[i as int] == providers@[i as int]@);
        let models = list_models_of(catalog, providers[i].as_str());
        assert(texts(models@).len() == models@.len());
        let mut line = providers[i].clone();
        line.push_str("(");
        line.push_str(decimal_size(models.len()).as_str());
        line.push_str(")");
        r.push(line);
        i += 1;
    }
    r
}

/// The refusal of a model that the catalog does not list.
pub fn explicit_model_not_found_message(
    provider: &str,
    id: &str,
    show_local_hint: bool,
    catalog: &Vec<CatalogEntry>,
) -> (r: String)
    ensures
        r@ == not_found_text(provider@, id@, show_local_hint, catalog@),
{
    let mut models = sort_texts(&list_models_of(catalog, provider));
    let ghost all = texts(models@);
    let total: usize = models.len();
    assert(all.len() == total);
    if total == 0 {
        let providers = dedup_texts(&sort_texts(&list_providers(catalog)));
        assert(texts(providers@).len() == providers@.len());
        let mut r = owned("model provider not found in catalog: provider=");
        r.push_str(provider);
        r.push_str(". Known providers: ");
        r.push_str(join(&count_providers(catalog, &providers), ", ").as_str());
        r.push_str(
            if show_local_hint && provider.eq("ds4") {
                DS4_HINT
            } else {
                ""
            },
        );
        return r;
    }
    if total > MAX_CANDIDATES {
        models.truncate(MAX_CANDIDATES);
        assert(texts(models@) =~= all.take(MAX_CANDIDATES as int));
    }
    let more = if total > MAX_CANDIDATES {
        let mut m = owned("; run `/model list ");
        m.push_str(provider);
        m.push_str("` inside theway for all ");
        m.push_str(decimal_size(total).as_str());
        m.push_str(" models");
        m
    } else {
        String::new()
    };
    let mut r = owned("model not found in catalog: provider=");
    r.push_str(provider);
    r.push_str(" id=");
    r.push_str(id);
    r.push_str(". Candidates: ");
    r.push_str(join(&models, ", ").as_str());
    r.push_str(more.as_str());
    r
}

/// The model that was asked for, given what the catalog has under the provider and the
/// identifier. Both have to be given: nothing is detected.
pub fn auto_detect_model(
    override_provider: &Option<String>,
    override_model: &Option<String>,
    found: Option<Model>,
    catalog: &Vec<CatalogEntry>,
) -> (r: Result<Model, String>)
    ensures
        match (*override_provider, *override_model) {
            (Some(provider), Some(id)) => match found {
                Some(m) => r matches Ok(n) && n == m,
                None => r matches Err(e) && e@ == not_found_text(provider@, id@, true, catalog@),
            },
            _ => r matches Err(e) && e@ == NO_MODEL_SELECTED@,
        },
{
    match (override_provider, override_model) {
        (Some(provider), Some(id)) => match found {
            Some(m) => Ok(m),
            None => Err(
                explicit_model_not_found_message(provider.as_str(), id.as_str(), true, catalog),
            ),
        },
        _ => Err(owned(NO_MODEL_SELECTED)),
    }
}

proof fn lemma_models_of(catalog: Seq<CatalogEntry>, provider: Seq<char>, n: int, id: Seq<char>)
    requires
        0 <= n <= catalog.len(),
    ensures
        models_of(catalog, provider, n).contains(id) <==> exists|i: int|
            0 <= i < n && (#[trigger] catalog[i]).provider@ == provider && catalog[i].id@ == id,
    decreases n,
{
    if n > 0 {
        lemma_models_of(catalog, provider, n - 1, id);
        let before = models_of(catalog, provider, n - 1);
        let all = models_of(catalog, provider, n);
        if catalog[n - 1].provider@ == provider {
            let x = catalog[n - 1].id@;
            assert(all[before.len() as int] == x);
            if before.contains(id) {
                let i = choose|i: int| 0 <= i < before.len() && before[i] == id;
                assert(all[i] == id);
            }
            if all.contains(id) && id != x {
                let i = choose|i: int| 0 <= i < all.len() && all[i] == id;
                assert(before[i] == id);
            }
        }
    }
}

/// The candidates for a model that is not found are the models of its own provider.
pub proof fn law_candidates_are_of_the_provider(
    catalog: Seq<CatalogEntry>,
    provider: Seq<char>,
    id: Seq<char>,
)
    ensures
        models_of(catalog, provider, catalog.len() as int).contains(id) <==> exists|i: int|
            0 <= i < catalog.len() && (#[trigger] catalog[i]).provider@ == provider
                && catalog[i].id@ == id,
{
    lemma_models_of(catalog, provider, catalog.len() as int, id);
}

proof fn lemma_models_counted(catalog: Seq<CatalogEntry>, provider: Seq<char>, n: int)
    requires
        0 <= n <= catalog.len(),
    ensures
        models_of(catalog, provider, n).len() == catalog.take(n).filter(
            |e: CatalogEntry| e.provider@ == provider,
        ).len(),
    decreases n,
{
    let own = |e: CatalogEntry| e.provider@ == provider;
    reveal(Seq::filter);
    if n > 0 {
        lemma_models_counted(catalog, provider, n - 1);
        assert(catalog.take(n).drop_last() =~= catalog.take(n - 1));
        assert(catalog.take(n).last() == catalog[n - 1]);
    }
}

/// Each provider is named with the number of its own models, in the order of the list.
pub proof fn law_providers_are_counted_by_their_models(
    catalog: Seq<CatalogEntry>,
    providers: Seq<Seq<char>>,
    n: int,
    i: int,
)
    requires
        0 <= i < n <= providers.len(),
    ensures
        provider_counts(catalog, providers, n).len() == n,
        ({
            let provider = providers[i];
            let count = catalog.filter(|e: CatalogEntry| e.provider@ == provider).len();
            provider_counts(catalog, providers, n)[i] == provider + "("@ + digits(count) + ")"@
        }),
    decreases n,
{
    reveal_with_fuel(provider_counts, 2);
    lemma_models_counted(catalog, providers[i], catalog.len() as int);
    assert(catalog.take(catalog.len() as int) =~= catalog);
    if n > 1 {
        if i < n - 1 {
            law_providers_are_counted_by_their_models(catalog, providers, n - 1, i);
        } else {
            law_providers_are_counted_by_their_models(catalog, providers, n - 1, 0);
        }
    }
}

} // verus!
