use ob_oraborus::error::ObError;
use ob_oraborus::json::JsonValue;
use ob_oraborus::model_router::{consider_provider, no_route, plan_route, provider_eligible};
use ob_oraborus::models::{CapabilityState, ProviderStatus};
use ob_oraborus::providers::{
    capabilities_from_name, chat_output, checked_status, default_tokens, disabled_status,
    failure_state, models_from_tags, ollama_base, provider_endpoint, ollama_capabilities, ollama_status, request_messages_json,
    sort_by_id, split_ready_lines, stream_line, text_less, ChatMessage, HealthOutcome, ModelInfo,
};

fn s(text: &str) -> String {
    text.to_string()
}

fn strings(items: &[&str]) -> Vec<String> {
    items.iter().map(|x| x.to_string()).collect()
}

fn obj(entries: Vec<(&str, JsonValue)>) -> JsonValue {
    JsonValue::Object(entries.into_iter().map(|(k, v)| (k.to_string(), v)).collect())
}

fn model(id: &str, caps: &[&str]) -> ModelInfo {
    ModelInfo {
        id: s(id),
        name: s(id),
        capabilities: strings(caps),
        context_length: None,
        size_bytes: None,
        local: true,
    }
}

fn status(id: &str) -> ProviderStatus {
    ProviderStatus {
        id: s(id),
        label: s(id),
        state: CapabilityState::Available,
        active_model: None,
        capabilities: vec![],
        latency_ms: None,
        detail: None,
    }
}

#[test]
fn capabilities_are_read_from_model_names() {
    assert_eq!(capabilities_from_name("LLaVA:13b"), strings(&["chat", "streaming", "vision"]));
    assert_eq!(
        capabilities_from_name("qwen2.5-coder:7b"),
        strings(&["chat", "coding", "streaming", "tool_calling"])
    );
    assert_eq!(capabilities_from_name("nomic-embed-text"), strings(&["chat", "embeddings", "streaming"]));
    assert_eq!(
        capabilities_from_name("gemini-1.5-pro"),
        strings(&["chat", "streaming", "tool_calling", "vision"])
    );
    assert_eq!(capabilities_from_name("phi"), strings(&["chat", "streaming"]));
}

#[test]
fn default_reply_budget_and_ollama_capabilities() {
    assert_eq!(default_tokens(), 2048);
    assert_eq!(
        ollama_capabilities(),
        strings(&[
            "chat",
            "streaming",
            "vision_model_dependent",
            "embeddings_model_dependent",
            "tool_calling_model_dependent"
        ])
    );
}

#[test]
fn failed_health_checks_map_to_states() {
    assert_eq!(failure_state(&ObError::NotConnected(s("x"))), CapabilityState::NotConnected);
    assert_eq!(
        failure_state(&ObError::RequiresConfiguration(s("x"))),
        CapabilityState::RequiresConfiguration
    );
    assert_eq!(failure_state(&ObError::Network(s("x"))), CapabilityState::Unavailable);
}

#[test]
fn streamed_lines_are_split_and_trimmed() {
    let (lines, rest) = split_ready_lines("  {\"a\":1}\n\n{\"b\":2}  \n{\"c\"");
    assert_eq!(lines, strings(&["{\"a\":1}", "{\"b\":2}"]));
    assert_eq!(rest, "{\"c\"");
    let (none, all) = split_ready_lines("partial");
    assert!(none.is_empty());
    assert_eq!(all, "partial");
}

#[test]
fn health_statuses_are_built_and_sorted() {
    let off = disabled_status(s("gemini"), s("Google Gemini"), None, strings(&["chat"]));
    assert_eq!(off.state, CapabilityState::Disabled);
    assert_eq!(off.detail, Some(s("Provider is disabled")));
    assert!(off.latency_ms.is_none());

    let failed = checked_status(
        s("ollama"),
        s("Ollama"),
        Some(s("llama3")),
        vec![],
        HealthOutcome::Failed(ObError::NotConnected(s("Ollama is not running"))),
        42,
    );
    assert_eq!(failed.state, CapabilityState::NotConnected);
    assert_eq!(failed.latency_ms, Some(42));
    assert_eq!(failed.detail, Some(s("NOT CONNECTED — Ollama is not running")));
    assert_eq!(failed.active_model, Some(s("llama3")));

    let late = checked_status(s("x"), s("X"), None, vec![], HealthOutcome::TimedOut, 3000);
    assert_eq!(late.state, CapabilityState::Unavailable);
    assert!(late.latency_ms.is_none());
    assert_eq!(late.detail, Some(s("Health check timed out")));

    let reported = checked_status(s("x"), s("X"), None, vec![], HealthOutcome::Reported(status("ollama")), 7);
    assert_eq!(reported.id, "ollama");
    assert_eq!(reported.latency_ms, Some(7));

    let sorted = sort_by_id(vec![status("openai-compatible"), status("gemini"), status("ollama")]);
    let ids: Vec<String> = sorted.iter().map(|x| x.id.clone()).collect();
    assert_eq!(ids, strings(&["gemini", "ollama", "openai-compatible"]));
    assert!(sort_by_id(vec![]).is_empty());
}

#[test]
fn text_order_follows_characters() {
    let a: Vec<char> = "ollama".chars().collect();
    let b: Vec<char> = "openai".chars().collect();
    let c: Vec<char> = "oll".chars().collect();
    assert!(text_less(&a, &b));
    assert!(!text_less(&b, &a));
    assert!(text_less(&c, &a));
    assert!(!text_less(&a, &a));
}

#[test]
fn chat_replies_are_read() {
    let reply = obj(vec![
        ("model", JsonValue::Str(s("llama3:8b"))),
        (
            "message",
            obj(vec![
                ("role", JsonValue::Str(s("assistant"))),
                ("content", JsonValue::Str(s("Hello"))),
                ("tool_calls", JsonValue::Array(vec![obj(vec![("name", JsonValue::Str(s("open")))])])),
            ]),
        ),
        ("prompt_eval_count", JsonValue::Number(s("12"))),
        ("done_reason", JsonValue::Str(s("stop"))),
    ]);
    let out = chat_output(&reply, "llama3");
    assert_eq!(out.text, "Hello");
    assert_eq!(out.model, "llama3:8b");
    assert_eq!(out.finish_reason, Some(s("stop")));
    assert_eq!(out.tool_calls.len(), 1);
    let usage = out.usage.expect("usage");
    assert_eq!(usage.get("promptTokens").and_then(|v| v.as_u64()), Some(12));
    assert!(matches!(usage.get("completionTokens"), Some(JsonValue::Null)));

    let empty = chat_output(&JsonValue::Null, "fallback");
    assert_eq!(empty.text, "");
    assert_eq!(empty.model, "fallback");
    assert!(empty.tool_calls.is_empty());
    assert!(empty.finish_reason.is_none());
}

#[test]
fn streamed_tokens_accumulate() {
    let mut text = s("Hel");
    let mut final_value = obj(vec![]);
    let line = obj(vec![("message", obj(vec![("content", JsonValue::Str(s("lo")))]))]);
    assert_eq!(stream_line(&mut text, &mut final_value, line), Some(s("lo")));
    assert_eq!(text, "Hello");
    assert!(matches!(&final_value, JsonValue::Object(e) if e.is_empty()));
    let last = obj(vec![("done", JsonValue::Bool(true)), ("done_reason", JsonValue::Str(s("stop")))]);
    assert_eq!(stream_line(&mut text, &mut final_value, last), None);
    assert_eq!(text, "Hello");
    assert!(final_value.get("done_reason").is_some());
}

#[test]
fn request_messages_put_the_system_prompt_first() {
    let messages = vec![ChatMessage { role: s("user"), content: s("hi") }];
    let with_system = request_messages_json(&messages, &Some(s("be brief")));
    assert_eq!(with_system.len(), 2);
    assert_eq!(with_system[0].get("role").and_then(|v| v.as_str()).cloned(), Some(s("system")));
    assert_eq!(with_system[0].get("content").and_then(|v| v.as_str()).cloned(), Some(s("be brief")));
    assert_eq!(with_system[1].get("content").and_then(|v| v.as_str()).cloned(), Some(s("hi")));
    assert_eq!(request_messages_json(&messages, &None).len(), 1);
}

#[test]
fn installed_models_are_read_from_tags() {
    let tags = obj(vec![(
        "models",
        JsonValue::Array(vec![
            obj(vec![("name", JsonValue::Str(s("llava:7b"))), ("size", JsonValue::Number(s("4100000000")))]),
            obj(vec![("size", JsonValue::Number(s("1")))]),
            obj(vec![("name", JsonValue::Str(s("phi3"))), ("size", JsonValue::Number(s("-1")))]),
        ]),
    )]);
    let models = models_from_tags(&tags);
    assert_eq!(models.len(), 2);
    assert_eq!(models[0].id, "llava:7b");
    assert_eq!(models[0].size_bytes, Some(4_100_000_000));
    assert!(models[0].capabilities.contains(&s("vision")));
    assert!(models[0].local);
    assert_eq!(models[1].name, "phi3");
    assert_eq!(models[1].size_bytes, None);
    assert!(models_from_tags(&JsonValue::Null).is_empty());

    let st = ollama_status(None, &models);
    assert_eq!(st.active_model, Some(s("llava:7b")));
    assert_eq!(st.detail, Some(s("2 model(s) installed")));
    assert_eq!(st.state, CapabilityState::Available);
    let kept = ollama_status(Some(s("mistral")), &vec![]);
    assert_eq!(kept.active_model, Some(s("mistral")));
    assert_eq!(kept.detail, Some(s("0 model(s) installed")));
    assert_eq!(ollama_status(None, &vec![]).active_model, None);
}

#[test]
fn routes_are_planned_from_the_request() {
    let p = plan_route("Keep this PRIVATE please", &vec![], false);
    assert!(p.private);
    assert_eq!(p.order, strings(&["ollama", "openai-compatible"]));
    let v = plan_route("What is on my screen?", &vec![], false);
    assert_eq!(v.required, strings(&["chat", "vision"]));
    assert_eq!(v.order, strings(&["gemini", "ollama", "openai-compatible"]));
    let c = plan_route("debug this Rust code and run tests", &vec![], false);
    assert_eq!(c.required, strings(&["chat", "coding", "tool_calling"]));
    assert_eq!(c.order, strings(&["ollama", "openai-compatible", "gemini"]));
    let a = plan_route("hello", &strings(&["photo.png"]), true);
    assert!(a.private);
    assert_eq!(a.required, strings(&["chat", "vision"]));
    let plain = plan_route("hello", &vec![], false);
    assert_eq!(plain.order, strings(&["ollama", "gemini", "openai-compatible"]));
}

#[test]
fn a_provider_step_extends_the_chain() {
    let plan = plan_route("describe this image", &vec![], false);
    let mut chain: Vec<String> = Vec::new();
    let weak = vec![model("phi", &["chat", "streaming"])];
    assert!(consider_provider(&plan, "gemini", "https://generativelanguage.googleapis.com/v1beta", None, &weak, &mut chain).is_none());
    assert_eq!(chain, strings(&["gemini:phi"]));
    let good = vec![model("phi", &["chat"]), model("llava", &["chat", "vision"])];
    let d = consider_provider(&plan, "ollama", "http://127.0.0.1:11434", None, &good, &mut chain).expect("a vision model");
    assert_eq!(d.provider_id, "ollama");
    assert_eq!(d.model, "llava");
    assert_eq!(d.reason, "Capability match: chat, vision");
    assert_eq!(d.fallback_chain, strings(&["gemini:phi", "ollama:llava"]));
    let mut empty_chain: Vec<String> = Vec::new();
    assert!(consider_provider(&plan, "x", "http://x", None, &vec![], &mut empty_chain).is_none());
    assert!(empty_chain.is_empty());
    let pinned = consider_provider(&plan, "ollama", "http://127.0.0.1:11434", Some("phi"), &good, &mut empty_chain);
    assert!(pinned.is_none());
    assert_eq!(empty_chain, strings(&["ollama:phi"]));
}

#[test]
fn no_route_names_what_was_required() {
    let plan = plan_route("write some code", &vec![], false);
    let e = no_route(&plan);
    assert_eq!(
        e.detail(),
        "No enabled model satisfies: chat, coding. Configure Ollama, Gemini, or an OpenAI-compatible endpoint."
    );
}

#[test]
fn ollama_address_loses_trailing_slashes() {
    assert_eq!(ollama_base(None), "http://127.0.0.1:11434");
    assert_eq!(ollama_base(Some(s("http://host:11434//"))), "http://host:11434");
    assert_eq!(ollama_base(Some(s("http://host:1"))), "http://host:1");
}

#[test]
fn local_only_requests_skip_remote_endpoints() {
    let plan = plan_route("hello", &vec![], true);
    let models = vec![model("llama3", &["chat"])];
    let mut chain: Vec<String> = Vec::new();
    assert!(consider_provider(&plan, "openai-compatible", "https://api.example.com/v1", None, &models, &mut chain).is_none());
    assert!(chain.is_empty());
    let d = consider_provider(&plan, "openai-compatible", "http://127.0.0.1:1234/v1", None, &models, &mut chain)
        .expect("a loopback endpoint serves private requests");
    assert_eq!(d.reason, "Private/local-only routing");
    assert!(consider_provider(&plan, "ollama", "http://[::1]:11434", None, &models, &mut vec![]).is_some());
    assert!(consider_provider(&plan, "ollama", "http://localhost:11434", None, &models, &mut vec![]).is_some());
    assert!(consider_provider(&plan, "ollama", "http://127.evil.com:11434", None, &models, &mut vec![]).is_none());
    assert!(!provider_eligible(&plan, true, "https://api.example.com/v1"));
    assert!(provider_eligible(&plan, true, "http://127.0.0.1:1234/v1"));
    assert!(!provider_eligible(&plan, false, "http://127.0.0.1:11434"));
    let open = plan_route("hello", &vec![], false);
    assert!(provider_eligible(&open, true, "https://api.example.com/v1"));
    assert!(!provider_eligible(&open, false, "https://api.example.com/v1"));
    assert!(consider_provider(&open, "openai-compatible", "https://api.example.com/v1", None, &models, &mut vec![]).is_some());
    assert_eq!(provider_endpoint("ollama", ""), "http://127.0.0.1:11434");
    assert_eq!(provider_endpoint("ollama", "http://box:11434/"), "http://box:11434");
    assert_eq!(provider_endpoint("openai-compatible", "http://127.0.0.1:1234/v1"), "http://127.0.0.1:1234/v1");
}
