//! The model of a local DS4 server, which is known only where its address is given.

use crate::json::{Json, JsonView};
use crate::model::{InputModality, Model, ModelThinkingLevel};
use crate::text::{opt_text, owned, trim, trimmed};
use vstd::prelude::*;

verus! {

/// A text without the white space around it, where something is left.
pub open spec fn nonempty(o: Option<String>) -> Option<Seq<char>> {
    match o {
        Some(s) => if trimmed(s@).len() == 0 {
            None
        } else {
            Some(trimmed(s@))
        },
        None => None,
    }
}

fn trimmed_nonempty(o: &Option<String>) -> (r: Option<String>)
    ensures
        opt_text(r) == nonempty(*o),
{
    match o {
        Some(s) => {
            let t = trim(s.as_str());
            if t.as_str().is_empty() {
                None
            } else {
                Some(t)
            }
        },
        None => None,
    }
}

/// The address of the server: the one given on the command line, else `DS4_BASE_URL`, else
/// `DS4_URL`. One that is blank counts as none.
pub open spec fn ds4_address(
    cli: Option<String>,
    base_url_var: Option<String>,
    url_var: Option<String>,
) -> Option<Seq<char>> {
    match nonempty(cli) {
        Some(a) => Some(a),
        None => match nonempty(base_url_var) {
            Some(a) => Some(a),
            None => nonempty(url_var),
        },
    }
}

/// The address of the server.
pub fn ds4_base_url(cli: &Option<String>, base_url_var: &Option<String>, url_var: &Option<String>) -> (r:
    Option<String>)
    ensures
        opt_text(r) == ds4_address(*cli, *base_url_var, *url_var),
{
    match trimmed_nonempty(cli) {
        Some(a) => Some(a),
        None => match trimmed_nonempty(base_url_var) {
            Some(a) => Some(a),
            None => trimmed_nonempty(url_var),
        },
    }
}

/// What the server does and does not understand.
pub open spec fn ds4_compat() -> JsonView {
    JsonView::Object(
        Map::empty().insert("supportsStore"@, JsonView::Bool(false)).insert(
            "supportsDeveloperRole"@,
            JsonView::Bool(false),
        ).insert("supportsReasoningEffort"@, JsonView::Bool(true)).insert(
            "supportsUsageInStreaming"@,
            JsonView::Bool(true),
        ).insert("maxTokensField"@, JsonView::Str("max_tokens"@)).insert(
            "supportsStrictMode"@,
            JsonView::Bool(false),
        ).insert("thinkingFormat"@, JsonView::Str("deepseek"@)).insert(
            "requiresReasoningContentOnAssistantMessages"@,
            JsonView::Bool(true),
        ),
    )
}

/// What the server calls the levels of thinking.
pub open spec fn is_ds4_levels(v: Seq<(ModelThinkingLevel, Option<&'static str>)>) -> bool {
    &&& v.len() == 7
    &&& v[0].0 is Off && v[0].1 is None
    &&& v[1].0 is Minimal && (v[1].1 matches Some(s) && s@ == "low"@)
    &&& v[2].0 is Low && (v[2].1 matches Some(s) && s@ == "low"@)
    &&& v[3].0 is Medium && (v[3].1 matches Some(s) && s@ == "medium"@)
    &&& v[4].0 is High && (v[4].1 matches Some(s) && s@ == "high"@)
    &&& v[5].0 is Xhigh && (v[5].1 matches Some(s) && s@ == "xhigh"@)
    &&& v[6].0 is Max && (v[6].1 matches Some(s) && s@ == "max"@)
}

/// The model of the server at an address.
pub fn ds4_model(base_url: String) -> (r: Model)
    ensures
        r.id@ == "deepseek-v4-flash"@,
        r.name@ == "DeepSeek V4 Flash (local DS4)"@,
        r.api@ == "openai-responses"@,
        r.provider@ == "ds4"@,
        r.base_url == base_url,
        r.reasoning,
        r.thinking_level_map matches Some(v) && is_ds4_levels(v@),
        r.input@ == seq![InputModality::Text],
        r.context_window == 100_000,
        r.max_tokens == 384_000,
        r.compat matches Some(c) && c@ == ds4_compat(),
{
    let mut levels: Vec<(ModelThinkingLevel, Option<&'static str>)> = Vec::new();
    levels.push((ModelThinkingLevel::Off, None));
    levels.push((ModelThinkingLevel::Minimal, Some("low")));
    levels.push((ModelThinkingLevel::Low, Some("low")));
    levels.push((ModelThinkingLevel::Medium, Some("medium")));
    levels.push((ModelThinkingLevel::High, Some("high")));
    levels.push((ModelThinkingLevel::Xhigh, Some("xhigh")));
    levels.push((ModelThinkingLevel::Max, Some("max")));
    let mut input: Vec<InputModality> = Vec::new();
    input.push(InputModality::Text);
    assert(input@ =~= seq![InputModality::Text]);
    let compat = Json::object().with("supportsStore", Json::Bool(false)).with(
        "supportsDeveloperRole",
        Json::Bool(false),
    ).with("supportsReasoningEffort", Json::Bool(true)).with(
        "supportsUsageInStreaming",
        Json::Bool(true),
    ).with("maxTokensField", Json::text("max_tokens")).with(
        "supportsStrictMode",
        Json::Bool(false),
    ).with("thinkingFormat", Json::text("deepseek")).with(
        "requiresReasoningContentOnAssistantMessages",
        Json::Bool(true),
    );
    Model {
        id: owned("deepseek-v4-flash"),
        name: owned("DeepSeek V4 Flash (local DS4)"),
        api: owned("openai-responses"),
        provider: owned("ds4"),
        base_url,
        reasoning: true,
        thinking_level_map: Some(levels),
        input,
        context_window: 100_000,
        max_tokens: 384_000,
        compat: Some(compat),
    }
}

/// The address of a local server is the first that is not blank: that of the command line, then
/// the two of the environment.
pub proof fn law_first_address_counts(
    cli: Option<String>,
    base_url_var: Option<String>,
    url_var: Option<String>,
)
    ensures
        (cli matches Some(s) && trimmed(s@).len() > 0) ==> ds4_address(cli, base_url_var, url_var)
            == Some(trimmed(cli->0@)),
        cli is None && (base_url_var matches Some(s) && trimmed(s@).len() > 0) ==> ds4_address(
            cli,
            base_url_var,
            url_var,
        ) == Some(trimmed(base_url_var->0@)),
        cli is None && base_url_var is None && (url_var matches Some(s) && trimmed(s@).len() > 0)
            ==> ds4_address(cli, base_url_var, url_var) == Some(trimmed(url_var->0@)),
        cli is None && base_url_var is None && url_var is None ==> ds4_address(
            cli,
            base_url_var,
            url_var,
        ) is None,
{
}

} // verus!
