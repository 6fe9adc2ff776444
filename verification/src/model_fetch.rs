//! The catalog of models that an OpenAI-compatible server gives.

use crate::json::{array_member, items_view, parsed_document, string_member, Json, JsonView};
use crate::model::{InputModality, Model};
use crate::model_defaults::nonempty;
use crate::order::{distinct, distinct_texts, lemma_distinct};
use crate::text::{
    cut, is_white, law_trimming_takes_the_white_space_away, lemma_texts_empty, lemma_texts_push,
    opt_text, owned, strip_trailing, take_chars, texts, trim, trimmed, without_trailing,
};
use vstd::prelude::*;

verus! {

broadcast use {lemma_texts_push, lemma_texts_empty};

/// How long a catalog is waited for, in seconds.
pub const FETCH_TIMEOUT_SECS: u64 = 5;

/// The API that the models of a catalog speak.
pub const DEFAULT_API: &'static str = "openai-completions";

/// The entries of a catalog: under `data`, as the whole body, or under `models`.
pub open spec fn catalog_entries(body: JsonView) -> Seq<JsonView> {
    match array_member(body, "data"@) {
        Some(v) => v,
        None => match body {
            JsonView::Array(v) => v,
            _ => match array_member(body, "models"@) {
                Some(v) => v,
                None => Seq::empty(),
            },
        },
    }
}

/// The identifier of an entry: its `id`, or its `name` where it has no `id` that is a text;
/// nothing where that is blank.
pub open spec fn entry_id(entry: JsonView) -> Option<Seq<char>> {
    let raw = match string_member(entry, "id"@) {
        Some(s) => Some(s),
        None => string_member(entry, "name"@),
    };
    match raw {
        Some(s) => if trimmed(s).len() == 0 {
            None
        } else {
            Some(trimmed(s))
        },
        None => None,
    }
}

/// The identifiers of the first `n` entries.
pub open spec fn entry_ids(entries: Seq<JsonView>, n: int) -> Seq<Seq<char>>
    decreases n,
{
    if n <= 0 || n > entries.len() {
        Seq::empty()
    } else {
        match entry_id(entries[n - 1]) {
            Some(id) => entry_ids(entries, n - 1).push(id),
            None => entry_ids(entries, n - 1),
        }
    }
}

/// The identifiers of a catalog, each once, in the order in which they first occur.
pub open spec fn catalog_ids(body: JsonView) -> Seq<Seq<char>> {
    let entries = catalog_entries(body);
    distinct(entry_ids(entries, entries.len() as int))
}

/// Whether a model is the one of a catalog with an identifier.
pub open spec fn is_fetched(
    m: Model,
    id: Seq<char>,
    provider: Seq<char>,
    base_url: Seq<char>,
    api: Seq<char>,
) -> bool {
    &&& m.id@ == id
    &&& m.name@ == id
    &&& m.api@ == api
    &&& m.provider@ == provider
    &&& m.base_url@ == base_url
    &&& !m.reasoning
    &&& m.thinking_level_map is None
    &&& m.input@ == seq![InputModality::Text]
    &&& m.context_window == 128_000
    &&& m.max_tokens == 8_192
    &&& m.compat is None
}

/// Whether models are those of a catalog.
pub open spec fn are_fetched(
    v: Seq<Model>,
    ids: Seq<Seq<char>>,
    provider: Seq<char>,
    base_url: Seq<char>,
    api: Seq<char>,
) -> bool {
    v.len() == ids.len() && forall|i: int|
        0 <= i < v.len() ==> is_fetched(#[trigger] v[i], ids[i], provider, base_url, api)
}

fn id_of(entry: &Json) -> (r: Option<String>)
    ensures
        opt_text(r) == entry_id(entry@),
{
    let raw = match entry.text_member("id") {
        Some(s) => s,
        None => match entry.text_member("name") {
            Some(s) => s,
            None => {
                return None;
            },
        },
    };
    let id = trim(raw.as_str());
    if id.as_str().is_empty() {
        None
    } else {
        Some(id)
    }
}

fn ids_of(entries: &Vec<Json>) -> (r: Vec<String>)
    ensures
        texts(r@) == entry_ids(items_view(entries@), entries@.len() as int),
{
    let mut r: Vec<String> = Vec::new();
    let ghost all = items_view(entries@);
    let mut i: usize = 0;
    while i < entries.len()
        invariant
            i <= entries@.len(),
            all == items_view(entries@),
            texts(r@) == entry_ids(all, i as int),
        decreases entries@.len() - i,
    {
        assert(all[i as int] == entries@[i as int]@);
        if let Some(id) = id_of(&entries[i]) {
            r.push(id);
        }
        i += 1;
    }
    r
}

fn array_field<'a>(body: &'a Json, key: &str) -> (r: Option<&'a Vec<Json>>)
    ensures
        match r {
            Some(v) => array_member(body@, key@) == Some(items_view(v@)),
            None => array_member(body@, key@) is None,
        },
{
    match body.get(key) {
        Some(m) => m.as_items(),
        None => None,
    }
}

fn entries_of(body: &Json) -> (r: Option<&Vec<Json>>)
    ensures
        match r {
            Some(v) => catalog_entries(body@) == items_view(v@),
            None => catalog_entries(body@).len() == 0,
        },
{
    match array_field(body, "data") {
        Some(v) => Some(v),
        None => match body.as_items() {
            Some(v) => Some(v),
            None => array_field(body, "models"),
        },
    }
}

/// The models of a catalog. What a catalog does not say of a model has a default.
pub fn models_from_catalog(body: &Json, provider: &str, base_url: &str, api: &str) -> (r: Vec<Model>)
    ensures
        are_fetched(r@, catalog_ids(body@), provider@, base_url@, api@),
{
    let ids = match entries_of(body) {
        Some(entries) => distinct_texts(&ids_of(entries)),
        None => Vec::new(),
    };
    let ghost all = texts(ids@);
    assert(all == catalog_ids(body@));
    let mut r: Vec<Model> = Vec::new();
    let mut i: usize = 0;
    while i < ids.len()
        invariant
            i <= ids@.len(),
            all == texts(ids@),
            r@.len() == i,
            forall|k: int|
                0 <= k < i ==> is_fetched(#[trigger] r@[k], all[k], provider@, base_url@, api@),
        decreases ids@.len() - i,
    {
        let mut input: Vec<InputModality> = Vec::new();
        input.push(InputModality::Text);
        assert(input@ =~= seq![InputModality::Text]);
        let m = Model {
            id: ids[i].clone(),
            name: ids[i].clone(),
            api: owned(api),
            provider: owned(provider),
            base_url: owned(base_url),
            reasoning: false,
            thinking_level_map: None,
            input,
            context_window: 128_000,
            max_tokens: 8_192,
            compat: None,
        };
        assert(is_fetched(m, all[i as int], provider@, base_url@, api@));
        r.push(m);
        i += 1;
    }
    r
}

/// The address of a server without the slashes at its end.
pub open spec fn base_address(base_url: Seq<char>) -> Seq<char> {
    without_trailing(trimmed(base_url), '/')
}

/// Where a catalog is fetched from.
#[derive(Debug)]
pub struct FetchPlan {
    pub base: String,
    pub url: String,
    /// The key to send, where there is one.
    pub key: Option<String>,
}

/// Where a catalog is fetched from, and with which key.
pub fn fetch_plan(base_url: &str, api_key: &Option<String>) -> (r: Result<FetchPlan, String>)
    ensures
        if base_address(base_url@).len() == 0 {
            r matches Err(e) && e@ == "base_url is required to fetch the model catalog"@
        } else {
            r matches Ok(p) && p.base@ == base_address(base_url@) && p.url@ == base_address(
                base_url@,
            ) + "/models"@ && opt_text(p.key) == nonempty(*api_key)
        },
{
    let base = strip_trailing(trim(base_url).as_str(), '/');
    if base.as_str().is_empty() {
        return Err(owned("base_url is required to fetch the model catalog"));
    }
    let mut url = base.clone();
    url.push_str("/models");
    let key = match api_key {
        Some(k) => {
            let t = trim(k.as_str());
            if t.as_str().is_empty() {
                None
            } else {
                Some(t)
            }
        },
        None => None,
    };
    Ok(FetchPlan { base, url, key })
}

/// How a request for a catalog ended.
#[derive(Debug)]
pub enum FetchEnd {
    NoClient(String),
    /// The request could not be sent, or its answer could not be read.
    Lost(String),
    Answered { success: bool, status: String, text: String },
}

fn fetch_error(url: &str, what: &str, detail: &str) -> (r: String)
    ensures
        r@ == "GET "@ + url@ + what@ + detail@,
{
    let mut e = owned("GET ");
    e.push_str(url);
    e.push_str(what);
    e.push_str(detail);
    e
}

/// The models that an answer holds, or why there are none.
pub fn fetched_models(plan: &FetchPlan, end: &FetchEnd, provider: &str) -> (r: Result<
    Vec<Model>,
    String,
>)
    ensures
        match end {
            FetchEnd::NoClient(e) => r matches Err(m) && m@ == "build HTTP client: "@ + e@,
            FetchEnd::Lost(e) => r matches Err(m) && m@ == "GET "@ + plan.url@ + ": "@ + e@,
            FetchEnd::Answered { success, status, text } => if !*success {
                r matches Err(m) && m@ == "GET "@ + plan.url@ + ": HTTP "@ + (status@ + ": "@ + cut(
                    text@,
                    200,
                ))
            } else {
                match parsed_document(text@) {
                    Ok(body) => r matches Ok(v) && are_fetched(
                        v@,
                        catalog_ids(body),
                        provider@,
                        plan.base@,
                        DEFAULT_API@,
                    ),
                    Err(e) => r matches Err(m) && m@ == "GET "@ + plan.url@ + ": invalid JSON: "@
                        + e,
                }
            },
        },
{
    match end {
        FetchEnd::NoClient(e) => {
            let mut m = owned("build HTTP client: ");
            m.push_str(e.as_str());
            Err(m)
        },
        FetchEnd::Lost(e) => Err(fetch_error(plan.url.as_str(), ": ", e.as_str())),
        FetchEnd::Answered { success, status, text } => {
            if !*success {
                let mut detail = status.clone();
                detail.push_str(": ");
                detail.push_str(take_chars(text.as_str(), 200).as_str());
                return Err(fetch_error(plan.url.as_str(), ": HTTP ", detail.as_str()));
            }
            match Json::parse(text.as_str()) {
                Ok(body) => Ok(
                    models_from_catalog(&body, provider, plan.base.as_str(), DEFAULT_API),
                ),
                Err(e) => Err(fetch_error(plan.url.as_str(), ": invalid JSON: ", e.as_str())),
            }
        },
    }
}

// Laws.

proof fn lemma_entry_ids(entries: Seq<JsonView>, n: int, i: int)
    requires
        0 <= n <= entries.len(),
        0 <= i < entry_ids(entries, n).len(),
    ensures
        entry_ids(entries, n)[i].len() > 0,
    decreases n,
{
    if n > 0 {
        let before = entry_ids(entries, n - 1);
        if i < before.len() {
            lemma_entry_ids(entries, n - 1, i);
        }
    }
}

/// No model of a catalog is listed twice, and none has an empty identifier.
pub proof fn law_fetched_models_are_distinct(body: JsonView, i: int)
    requires
        0 <= i < catalog_ids(body).len(),
    ensures
        catalog_ids(body).no_duplicates(),
        catalog_ids(body)[i].len() > 0,
{
    let entries = catalog_entries(body);
    let all = entry_ids(entries, entries.len() as int);
    crate::order::lemma_distinct(all);
    let id = catalog_ids(body)[i];
    assert(catalog_ids(body).contains(id));
    assert(all.contains(id));
    let k = choose|k: int| 0 <= k < all.len() && all[k] == id;
    lemma_entry_ids(entries, entries.len() as int, k);
}

proof fn lemma_ids_of_entries(entries: Seq<JsonView>, n: int, id: Seq<char>)
    requires
        0 <= n <= entries.len(),
    ensures
        entry_ids(entries, n).contains(id) <==> exists|k: int|
            0 <= k < n && entry_id(#[trigger] entries[k]) == Some(id),
    decreases n,
{
    if n > 0 {
        lemma_ids_of_entries(entries, n - 1, id);
        let before = entry_ids(entries, n - 1);
        let all = entry_ids(entries, n);
        if let Some(x) = entry_id(entries[n - 1]) {
            assert(all[before.len() as int] == x);
            if before.contains(id) {
                let i = choose|i: int| 0 <= i < before.len() && before[i] == id;
                assert(all[i] == id);
            }
            if all.contains(id) && id != x {
                let i = choose|i: int| 0 <= i < all.len() && all[i] == id;
                assert(before[i] == id);
            }
        }
    }
}

/// A server offers exactly the models that its list names: each by its `id`, or else by its
/// `name`, without white space around it.
pub proof fn law_listed_models_are_offered(
    members: Map<Seq<char>, JsonView>,
    entries: Seq<JsonView>,
    id: Seq<char>,
)
    requires
        members.contains_key("data"@),
        members["data"@] == JsonView::Array(entries),
    ensures
        catalog_ids(JsonView::Object(members)).contains(id) <==> exists|k: int|
            0 <= k < entries.len() && entry_id(#[trigger] entries[k]) == Some(id),
{
    lemma_ids_of_entries(entries, entries.len() as int, id);
    lemma_distinct(entry_ids(entries, entries.len() as int));
}

/// A model of a list is known by its `id`, and only without one by its `name`.
pub proof fn law_models_are_known_by_their_id(
    members: Map<Seq<char>, JsonView>,
    text: Seq<char>,
)
    requires
        trimmed(text).len() > 0,
    ensures
        members.contains_key("id"@) && members["id"@] == JsonView::Str(text) ==> entry_id(
            JsonView::Object(members),
        ) == Some(trimmed(text)),
        !members.contains_key("id"@) && members.contains_key("name"@) && members["name"@]
            == JsonView::Str(text) ==> entry_id(JsonView::Object(members)) == Some(trimmed(text)),
        !members.contains_key("id"@) && !members.contains_key("name"@) ==> entry_id(
            JsonView::Object(members),
        ) is None,
{
}

/// The list of a server is its `data`, or the answer itself where that is a list, or else its
/// `models`.
pub proof fn law_lists_are_found(members: Map<Seq<char>, JsonView>, entries: Seq<JsonView>)
    ensures
        catalog_entries(JsonView::Array(entries)) == entries,
        members.contains_key("data"@) && members["data"@] == JsonView::Array(entries)
            ==> catalog_entries(JsonView::Object(members)) == entries,
        !members.contains_key("data"@) && members.contains_key("models"@) && members["models"@]
            == JsonView::Array(entries) ==> catalog_entries(JsonView::Object(members)) == entries,
{
}

proof fn lemma_without_trailing(s: Seq<char>, c: char)
    ensures
        without_trailing(s, c).len() > 0 ==> without_trailing(s, c).last() != c,
        s.len() == 0 || s.last() != c ==> without_trailing(s, c) == s,
    decreases s.len(),
{
    if s.len() > 0 && s.last() == c {
        lemma_without_trailing(s.drop_last(), c);
    }
}

/// White space around an address and slashes at its end change nothing: the address itself is
/// kept.
pub proof fn law_addresses_are_kept_without_their_slashes(
    before: Seq<char>,
    s: Seq<char>,
    after: Seq<char>,
)
    requires
        forall|i: int| 0 <= i < before.len() ==> is_white(#[trigger] before[i]),
        forall|i: int| 0 <= i < after.len() ==> is_white(#[trigger] after[i]),
        s.len() > 0,
        !is_white(s[0]),
        !is_white(s.last()),
    ensures
        base_address(before + s + after) == base_address(s),
        s.last() != '/' ==> base_address(s) == s,
        base_address(s.push('/')) == base_address(s),
        base_address(s).len() > 0 ==> base_address(s).last() != '/',
{
    law_trimming_takes_the_white_space_away(before, s, after);
    let none = Seq::<char>::empty();
    law_trimming_takes_the_white_space_away(none, s, none);
    assert(none + s + none =~= s);
    let t = s.push('/');
    assert(t[0] == s[0]);
    law_trimming_takes_the_white_space_away(none, t, none);
    assert(none + t + none =~= t);
    assert(t.drop_last() =~= s);
    lemma_without_trailing(s, '/');
}

} // verus!
