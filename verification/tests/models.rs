use theway_daemon::json::Json;
use theway_daemon::model::{
    auto_detect_model, explicit_model_not_found_message, CatalogEntry, InputModality, Model,
    ModelThinkingLevel, NO_MODEL_SELECTED,
};
use theway_daemon::model_defaults::{ds4_base_url, ds4_model};
use theway_daemon::model_fetch::{
    fetch_plan, fetched_models, models_from_catalog, FetchEnd, DEFAULT_API,
};

fn local_model(provider: &str, id: &str) -> Model {
    Model {
        id: id.to_string(),
        name: format!("Local {id}"),
        api: "openai-responses".to_string(),
        provider: provider.to_string(),
        base_url: "http://127.0.0.1:8000/v1".to_string(),
        reasoning: true,
        thinking_level_map: None,
        input: vec![InputModality::Text],
        context_window: 100_000,
        max_tokens: 100_000,
        compat: None,
    }
}

fn text(s: &str) -> Option<String> {
    Some(s.to_string())
}

fn parse(s: &str) -> Json {
    match Json::parse(s) {
        Ok(v) => v,
        Err(e) => panic!("{e}"),
    }
}

fn entry(provider: &str, id: &str) -> CatalogEntry {
    CatalogEntry {
        provider: provider.to_string(),
        id: id.to_string(),
    }
}

fn error(r: Result<Model, String>) -> String {
    match r {
        Ok(m) => panic!("found {}", m.id),
        Err(e) => e,
    }
}

#[test]
fn explicit_override_resolves_custom_model_registered_before_detection() {
    let provider = "local-test-model-detect";
    let id = "deepseek-v4-flash";
    let found = Some(local_model(provider, id));
    let resolved = match auto_detect_model(&text(provider), &text(id), found, &Vec::new()) {
        Ok(m) => m,
        Err(e) => panic!("{e}"),
    };
    assert_eq!(resolved.provider, provider);
    assert_eq!(resolved.id, id);
}

#[test]
fn a_model_needs_both_parts() {
    assert_eq!(
        error(auto_detect_model(&text("p"), &None, None, &Vec::new())),
        NO_MODEL_SELECTED
    );
    assert_eq!(
        error(auto_detect_model(&None, &text("m"), None, &Vec::new())),
        NO_MODEL_SELECTED
    );
}

#[test]
fn unknown_models_name_candidates() {
    let catalog = vec![entry("p", "b"), entry("p", "a"), entry("q", "c")];
    assert_eq!(
        error(auto_detect_model(&text("p"), &text("x"), None, &catalog)),
        "model not found in catalog: provider=p id=x. Candidates: a, b"
    );
    assert_eq!(
        explicit_model_not_found_message("zz", "x", true, &catalog),
        "model provider not found in catalog: provider=zz. Known providers: p(2), q(1)"
    );
    assert!(explicit_model_not_found_message("ds4", "x", true, &catalog)
        .contains("For local DS4, pass --base-url"));
    assert!(!explicit_model_not_found_message("ds4", "x", false, &catalog).contains("DS4_BASE_URL"));
    let many: Vec<CatalogEntry> = (0..13).map(|i| entry("p", &format!("m{i:02}"))).collect();
    let long = explicit_model_not_found_message("p", "x", true, &many);
    assert!(long.contains("m11") && !long.contains("m12"));
    assert!(long.ends_with("; run `/model list p` inside theway for all 13 models"));
}

#[test]
fn openai_shape_converts_and_dedupes() {
    let body = parse(
        r#"{
            "object": "list",
            "data": [
                {"id": "qwen3-local"},
                {"id": "llama-4-local", "owned_by": "local"},
                {"id": "qwen3-local"},
                {"id": ""},
                {"no_id": true}
            ]
        }"#,
    );
    let models = models_from_catalog(&body, "ds4", "http://127.0.0.1:8000/v1", DEFAULT_API);
    assert_eq!(models.len(), 2);
    assert_eq!(models[0].id, "qwen3-local");
    assert_eq!(models[0].provider, "ds4");
    assert_eq!(models[0].base_url, "http://127.0.0.1:8000/v1");
    assert_eq!(models[0].api, DEFAULT_API);
    assert_eq!(models[1].id, "llama-4-local");
    assert_eq!(models[1].name, "llama-4-local");
    assert_eq!(models[0].context_window, 128_000);
    assert_eq!(models[0].max_tokens, 8_192);
}

#[test]
fn bare_array_and_ollama_shapes_are_accepted() {
    let bare = parse(r#"[{"id": "a"}, {"id": "b"}]"#);
    assert_eq!(
        models_from_catalog(&bare, "p", "http://x", DEFAULT_API)
            .iter()
            .map(|m| m.id.clone())
            .collect::<Vec<_>>(),
        vec!["a", "b"]
    );
    let ollama = parse(r#"{"models": [{"name": "c"}]}"#);
    let models = models_from_catalog(&ollama, "p", "http://x", DEFAULT_API);
    assert_eq!(models.len(), 1);
    assert_eq!(models[0].id, "c");
}

#[test]
fn unknown_shape_yields_no_models() {
    assert!(
        models_from_catalog(&parse(r#"{"error": "nope"}"#), "p", "http://x", DEFAULT_API)
            .is_empty()
    );
    assert!(models_from_catalog(&parse(r#""text""#), "p", "http://x", DEFAULT_API).is_empty());
}

#[test]
fn fetches_of_catalogs() {
    let plan = match fetch_plan(" http://x/v1// ", &text(" k ")) {
        Ok(p) => p,
        Err(e) => panic!("{e}"),
    };
    assert_eq!(plan.base, "http://x/v1");
    assert_eq!(plan.url, "http://x/v1/models");
    assert_eq!(plan.key.as_deref(), Some("k"));
    match fetch_plan(" / ", &None) {
        Ok(_) => panic!("a blank address is refused"),
        Err(e) => assert_eq!(e, "base_url is required to fetch the model catalog"),
    }
    let failed = |end: FetchEnd| match fetched_models(&plan, &end, "p") {
        Ok(_) => panic!("the fetch failed"),
        Err(e) => e,
    };
    assert_eq!(
        failed(FetchEnd::NoClient("tls".to_string())),
        "build HTTP client: tls"
    );
    assert_eq!(
        failed(FetchEnd::Lost("refused".to_string())),
        "GET http://x/v1/models: refused"
    );
    assert_eq!(
        failed(FetchEnd::Answered {
            success: false,
            status: "404 Not Found".to_string(),
            text: "y".repeat(300),
        }),
        format!("GET http://x/v1/models: HTTP 404 Not Found: {}", "y".repeat(200))
    );
    assert!(failed(FetchEnd::Answered {
        success: true,
        status: "200 OK".to_string(),
        text: "{".to_string(),
    })
    .starts_with("GET http://x/v1/models: invalid JSON: "));
    let end = FetchEnd::Answered {
        success: true,
        status: "200 OK".to_string(),
        text: r#"[{"id":"m"}]"#.to_string(),
    };
    match fetched_models(&plan, &end, "p") {
        Ok(models) => {
            assert_eq!(models.len(), 1);
            assert_eq!(models[0].base_url, "http://x/v1");
        }
        Err(e) => panic!("{e}"),
    }
}

#[test]
fn the_model_of_a_local_server() {
    assert_eq!(
        ds4_base_url(&text("  "), &text(" http://a "), &text("http://b")).as_deref(),
        Some("http://a")
    );
    assert_eq!(
        ds4_base_url(&None, &None, &text("http://b")).as_deref(),
        Some("http://b")
    );
    assert!(ds4_base_url(&None, &text(""), &None).is_none());
    let m = ds4_model("http://a".to_string());
    assert_eq!(m.id, "deepseek-v4-flash");
    assert_eq!(m.provider, "ds4");
    assert_eq!(m.context_window, 100_000);
    assert_eq!(m.max_tokens, 384_000);
    let levels = m.thinking_level_map.unwrap();
    assert_eq!(levels[1], (ModelThinkingLevel::Minimal, Some("low")));
    let compat = m.compat.unwrap();
    assert_eq!(
        compat.text_member("maxTokensField").as_deref(),
        Some("max_tokens")
    );
}
