use tempfile::TempDir;
use writer_ai_service::cache::{CacheConfig, CacheManager};
use writer_ai_service::config::AppConfig;
use writer_ai_service::errors::AppError;
use writer_ai_service::http::{begin_request, finish_request, template_identity, ProcessRequest, ProcessResponse};
use writer_ai_service::json::{set_member, Json};
use writer_ai_service::llm::{
    apply_template, build_payload, classify_provider, extract_text, finish_text, interpret_response,
    overlay_params, prepare_request, truncate_response, ProviderFamily,
};

fn s(x: &str) -> Json {
    Json::Str(x.to_string())
}

fn obj(fields: Vec<(&str, Json)>) -> Json {
    Json::Object(fields.into_iter().map(|(k, v)| (k.to_string(), v)).collect())
}

fn config(url: &str, key: Option<&str>, enabled: bool) -> AppConfig {
    AppConfig {
        port: 8989,
        llm_url: url.to_string(),
        model_name: "test-model".to_string(),
        llm_params: None,
        prompt_template: None,
        openai_api_key: key.map(|k| k.to_string()),
        openai_org_id: None,
        openai_project_id: None,
        cache: CacheConfig {
            enabled,
            ttl_days: 30,
            max_size_mb: 100,
        },
    }
}

fn text_at<'a>(v: &'a Json, path: &[&str]) -> Option<&'a str> {
    let mut cur = v;
    for step in path {
        cur = match step.parse::<usize>() {
            Ok(i) => match cur {
                Json::Array(items) => items.get(i)?,
                _ => return None,
            },
            Err(_) => cur.get(step)?,
        };
    }
    cur.as_str()
}

#[test]
fn test_prompt_template_application() {
    let template = "Improve this text: {input}";
    let input = "Test input";
    let expected = "Improve this text: Test input";
    let result = apply_template(input, Some(template));
    assert_eq!(result, expected);
}

#[test]
fn template_absent_or_repeated() {
    assert_eq!(apply_template("raw", None), "raw");
    assert_eq!(apply_template("x", Some("{input}-{input}")), "x-x");
    assert_eq!(apply_template("x", Some("no placeholder")), "no placeholder");
}

#[test]
fn test_ollama_payload_construction() {
    let response_data = obj(vec![("message", obj(vec![("content", s("Test response from Ollama"))]))]);
    let content = extract_text(ProviderFamily::Ollama, &response_data);
    assert_eq!(content, Some("Test response from Ollama".to_string()));
}

#[test]
fn test_openai_payload_construction() {
    let response_data = obj(vec![(
        "output",
        Json::Array(vec![obj(vec![(
            "content",
            Json::Array(vec![obj(vec![("text", s("Test response from OpenAI"))])]),
        )])]),
    )]);
    let text = extract_text(ProviderFamily::OpenAi, &response_data);
    assert_eq!(text, Some("Test response from OpenAI".to_string()));
}

#[test]
fn test_error_handling() {
    let body = r#"{"error":{"message":"Invalid API key","type":"authentication_error"}}"#;
    let parsed = obj(vec![(
        "error",
        obj(vec![("message", s("Invalid API key")), ("type", s("authentication_error"))]),
    )]);
    let result = interpret_response(ProviderFamily::OpenAi, 401, body.to_string(), Some(parsed));
    match result {
        Err(AppError::UpstreamStatus { status, body }) => {
            assert_eq!(status, 401);
            assert!(body.contains("Invalid API key"));
        }
        _ => panic!("expected an upstream status error"),
    }
}

#[test]
fn test_process_text_handler_error() {
    let config = config("https://api.openai.com/v1/responses", None, false);
    let result = prepare_request("Test input text", config);
    assert!(matches!(result, Err(AppError::MissingCredential)));
}

#[test]
fn test_config_error_into_response() {
    let app_error = AppError::Config("Test config not found".to_string());
    assert_eq!(app_error.status_code(), 500);
}

#[test]
fn test_reqwest_error_into_response() {
    let app_error = AppError::Transport("Test LLM API error".to_string());
    assert_eq!(app_error.status_code(), 502);
}

#[test]
fn test_llm_api_error_into_response() {
    let app_error = AppError::UpstreamStatus {
        status: 500,
        body: "Test LLM API error message".to_string(),
    };
    assert_eq!(app_error.status_code(), 502);
}

#[test]
fn status_code_per_variant() {
    assert_eq!(AppError::MissingCredential.status_code(), 502);
    assert_eq!(AppError::UnrecognizedFormat("{}".to_string()).status_code(), 502);
    assert_eq!(AppError::CacheError("x".to_string()).status_code(), 500);
    assert_eq!(AppError::Io("x".to_string()).status_code(), 500);
    assert_eq!(AppError::MissingHomeDir.status_code(), 500);
    assert_eq!(AppError::Internal("x".to_string()).status_code(), 500);
}

#[test]
fn classify_by_url() {
    assert_eq!(classify_provider("http://localhost:11434/api/chat"), ProviderFamily::Ollama);
    assert_eq!(classify_provider("https://my-ollama.example/api/chat"), ProviderFamily::Ollama);
    assert_eq!(classify_provider("https://api.openai.com/v1/responses"), ProviderFamily::OpenAi);
    assert_eq!(classify_provider("http://localhost:8080"), ProviderFamily::OpenAi);
}

#[test]
fn truncation_exact() {
    let long: String = "a".repeat(2500);
    let out = truncate_response(&long);
    assert_eq!(out.chars().count(), 2003);
    assert_eq!(out, format!("{}...", "a".repeat(2000)));
    let exact: String = "b".repeat(2000);
    assert_eq!(truncate_response(&exact), exact);
    let wide: String = "é".repeat(2001);
    assert_eq!(truncate_response(&wide), format!("{}...", "é".repeat(2000)));
}

#[test]
fn finish_trims_then_truncates() {
    assert_eq!(finish_text("  hello \n"), "hello");
    let padded = format!("  {}  ", "c".repeat(2001));
    assert_eq!(finish_text(&padded), format!("{}...", "c".repeat(2000)));
}

#[test]
fn parser_follows_configured_family() {
    let both = obj(vec![
        ("message", obj(vec![("content", s("from chat"))])),
        (
            "output",
            Json::Array(vec![obj(vec![(
                "content",
                Json::Array(vec![obj(vec![("text", s("from responses"))])]),
            )])]),
        ),
    ]);
    assert_eq!(extract_text(ProviderFamily::Ollama, &both), Some("from chat".to_string()));
    assert_eq!(extract_text(ProviderFamily::OpenAi, &both), Some("from responses".to_string()));
    let only_chat = obj(vec![("message", obj(vec![("content", s("x"))]))]);
    assert_eq!(extract_text(ProviderFamily::OpenAi, &only_chat), None);
}

#[test]
fn interpret_success_and_unrecognized() {
    let ok = obj(vec![("message", obj(vec![("content", s("  fixed text  "))]))]);
    let r = interpret_response(ProviderFamily::Ollama, 200, "raw".to_string(), Some(ok));
    assert_eq!(r.ok(), Some("fixed text".to_string()));
    let odd = obj(vec![("unexpected", s("shape"))]);
    match interpret_response(ProviderFamily::Ollama, 200, "{\"unexpected\":\"shape\"}".to_string(), Some(odd)) {
        Err(AppError::UnrecognizedFormat(b)) => assert_eq!(b, "{\"unexpected\":\"shape\"}"),
        _ => panic!("expected an unrecognized-format error"),
    }
    match interpret_response(ProviderFamily::OpenAi, 204, "not json".to_string(), None) {
        Err(AppError::UnrecognizedFormat(b)) => assert_eq!(b, "not json"),
        _ => panic!("expected an unrecognized-format error"),
    }
}

#[test]
fn payload_shapes() {
    let chat = build_payload(ProviderFamily::Ollama, "llama3", "Fix me");
    assert_eq!(text_at(&chat, &["model"]), Some("llama3"));
    assert_eq!(text_at(&chat, &["messages", "1", "content"]), Some("Fix me"));
    assert_eq!(text_at(&chat, &["messages", "0", "role"]), Some("system"));
    let responses = build_payload(ProviderFamily::OpenAi, "gpt-4o", "Fix me");
    assert_eq!(text_at(&responses, &["model"]), Some("gpt-4o"));
    assert_eq!(text_at(&responses, &["input", "1", "content", "0", "text"]), Some("Fix me"));
    assert_eq!(text_at(&responses, &["input", "1", "role"]), Some("user"));
    assert_eq!(text_at(&responses, &["text", "format", "type"]), Some("text"));
    assert!(matches!(responses.get("max_output_tokens"), Some(Json::Number(n)) if n == "2048"));
    assert!(matches!(responses.get("store"), Some(Json::Bool(true))));
    assert!(responses.get("prompt_template").is_none());
}

#[test]
fn overlay_skips_template_key() {
    let body = build_payload(ProviderFamily::Ollama, "llama3", "p");
    let params = obj(vec![
        ("temperature", Json::Number("0.9".to_string())),
        ("prompt_template", s("{input}")),
        ("extra", Json::Bool(true)),
    ]);
    let merged = overlay_params(body, Some(params));
    assert!(matches!(merged.get("temperature"), Some(Json::Number(n)) if n == "0.9"));
    assert!(merged.get("prompt_template").is_none());
    assert!(matches!(merged.get("extra"), Some(Json::Bool(true))));
    assert_eq!(text_at(&merged, &["model"]), Some("llama3"));
    assert!(matches!(merged.get("top_p"), Some(Json::Number(n)) if n == "0.8"));
    assert!(matches!(merged.get("stream"), Some(Json::Bool(false))));
    let unchanged = overlay_params(s("not an object"), Some(obj(vec![("a", Json::Null)])));
    assert_eq!(unchanged.as_str(), Some("not an object"));
}

#[test]
fn set_member_replaces() {
    let mut fields = vec![("a".to_string(), Json::Null), ("b".to_string(), Json::Null)];
    set_member(&mut fields, "a".to_string(), Json::Bool(false));
    assert_eq!(fields.len(), 2);
    assert_eq!(fields[1].0, "a");
}

#[test]
fn prepare_openai_headers() {
    let mut cfg = config("https://api.openai.com/v1/responses", Some("sk-test"), true);
    cfg.openai_org_id = Some("org-1".to_string());
    cfg.prompt_template = Some("Improve: {input}".to_string());
    let req = prepare_request("hello", cfg).ok().unwrap();
    assert_eq!(req.family, ProviderFamily::OpenAi);
    assert_eq!(req.authorization, Some("Bearer sk-test".to_string()));
    assert_eq!(req.organization, Some("org-1".to_string()));
    assert_eq!(req.project, None);
    assert_eq!(text_at(&req.body, &["input", "1", "content", "0", "text"]), Some("Improve: hello"));
}

#[test]
fn prepare_ollama_needs_no_key() {
    let req = prepare_request("hello", config("http://localhost:11434/api/chat", None, true))
        .ok()
        .unwrap();
    assert_eq!(req.family, ProviderFamily::Ollama);
    assert_eq!(req.authorization, None);
    assert_eq!(req.url, "http://localhost:11434/api/chat");
}

fn run_pipeline(cache: &mut CacheManager, cfg: &AppConfig, text: &str, calls: &mut u32) -> String {
    if let Some(hit) = begin_request(cache, cfg, text) {
        return hit;
    }
    *calls += 1;
    let answer = obj(vec![("message", obj(vec![("content", s("mocked answer"))]))]);
    let outcome = interpret_response(ProviderFamily::Ollama, 200, String::new(), Some(answer));
    finish_request(cache, cfg, text, outcome).ok().unwrap()
}

#[test]
fn test_cache_integration() {
    let dir = TempDir::new().unwrap();
    let cfg = config("http://localhost:11434/api/chat", None, true);
    let mut cache = CacheManager::new(dir.path().join("test_cache.sled").to_str().unwrap(), cfg.cache.clone()).unwrap();
    let mut calls = 0;
    assert_eq!(run_pipeline(&mut cache, &cfg, "Test input for caching", &mut calls), "mocked answer");
    assert_eq!(run_pipeline(&mut cache, &cfg, "Test input for caching", &mut calls), "mocked answer");
    assert_eq!(calls, 1);
    run_pipeline(&mut cache, &cfg, "Different test input", &mut calls);
    assert_eq!(calls, 2);
}

#[test]
fn cache_integration_test_test_disabled_cache() {
    let dir = TempDir::new().unwrap();
    let cfg = config("http://localhost:11434/api/chat", None, false);
    let mut cache = CacheManager::new(dir.path().join("test_cache.sled").to_str().unwrap(), cfg.cache.clone()).unwrap();
    let mut calls = 0;
    run_pipeline(&mut cache, &cfg, "Test input for disabled cache", &mut calls);
    run_pipeline(&mut cache, &cfg, "Test input for disabled cache", &mut calls);
    assert_eq!(calls, 2);
}

#[test]
fn provider_error_is_not_cached() {
    let dir = TempDir::new().unwrap();
    let cfg = config("http://localhost:11434/api/chat", None, true);
    let mut cache = CacheManager::new(dir.path().join("test_cache.sled").to_str().unwrap(), cfg.cache.clone()).unwrap();
    let r = finish_request(&mut cache, &cfg, "t", Err(AppError::Transport("down".to_string())));
    assert!(matches!(r, Err(AppError::Transport(_))));
    assert!(begin_request(&mut cache, &cfg, "t").is_none());
}

#[test]
fn template_identity_values() {
    assert_eq!(template_identity(&None), 0);
    let a = template_identity(&Some("A {input}".to_string()));
    assert_eq!(a, template_identity(&Some("A {input}".to_string())));
    assert_ne!(a, template_identity(&Some("B {input}".to_string())));
}

#[test]
fn request_and_response_types() {
    let req = ProcessRequest { text: "hi".to_string() };
    let resp = ProcessResponse { response: req.text.clone() };
    assert_eq!(resp.response, "hi");
}
