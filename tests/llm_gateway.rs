use std::rc::Rc;

use archgw::llm_gateway::{
    parse_traceparent, BodyOutcome, HeaderOp, HeadersOutcome, LlmProvider, LlmProviderType, MetricRecord,
    StreamContext, get_llm_provider,
};
use archgw::openai::{ChatCompletionsRequest, Message};
use archgw::prompt_gateway::Overrides;
use archgw::ratelimit::{RatelimitRegistry, RatelimitRule};

fn provider(name: &str, key: Option<&str>, endpoint: Option<&str>, default: Option<bool>) -> LlmProvider {
    LlmProvider {
        name: name.to_string(),
        provider_interface: LlmProviderType::OpenAI,
        access_key: key.map(|k| k.to_string()),
        endpoint: endpoint.map(|e| e.to_string()),
        port: None,
        model: Some("gpt-4o".to_string()),
        default,
        stream: None,
    }
}

fn ctx(providers: Vec<LlmProvider>, orchestrator: bool) -> StreamContext {
    let overrides = Overrides {
        prompt_target_intent_matching_threshold: None,
        optimize_context_window: None,
        use_agent_orchestrator: Some(orchestrator),
    };
    StreamContext::new(1, Rc::new(providers), Rc::new(Some(overrides)), 1_000_000_000)
}

fn headers(pairs: &[(&str, &str)]) -> Vec<(String, String)> {
    pairs.iter().map(|(k, v)| (k.to_string(), v.to_string())).collect()
}

fn apply(mut hs: Vec<(String, String)>, ops: &[HeaderOp]) -> Vec<(String, String)> {
    for op in ops {
        match op {
            HeaderOp::Add(n, v) => hs.push((n.clone(), v.clone())),
            HeaderOp::Replace(n, v) => {
                hs.retain(|(k, _)| k != n);
                hs.push((n.clone(), v.clone()));
            },
            HeaderOp::Remove(n) => hs.retain(|(k, _)| k != n),
        }
    }
    hs
}

fn chat_request(model: &str, stream: bool) -> ChatCompletionsRequest {
    ChatCompletionsRequest {
        model: model.to_string(),
        messages: vec![
            Message {
                role: "system".to_string(),
                content: Some("be nice".to_string()),
                model: Some("tagged".to_string()),
                tool_calls: None,
                tool_call_id: None,
            },
            Message {
                role: "user".to_string(),
                content: Some("hello there".to_string()),
                model: None,
                tool_calls: None,
                tool_call_id: None,
            },
        ],
        tools: None,
        stream,
        stream_options: None,
        metadata: None,
    }
}

#[test]
fn healthz_is_answered_at_once() {
    let mut c = ctx(vec![provider("openai", Some("k"), None, None)], false);
    match c.on_http_request_headers(&headers(&[(":path", "/healthz")])) {
        HeadersOutcome::Respond { status, body } => {
            assert_eq!(status, 200);
            assert!(body.is_empty());
        },
        _ => panic!("expected a direct reply"),
    }
    assert!(c.llm_provider.is_none());
    assert!(c.ratelimit_selector.is_none());
}

#[test]
fn exactly_one_routing_header_goes_downstream() {
    let mut c = ctx(vec![provider("openai", Some("secret"), None, None)], false);
    let hs = headers(&[(":path", "/v1/chat/completions"), ("content-length", "12")]);
    let ops = match c.on_http_request_headers(&hs) {
        HeadersOutcome::Forward { ops } => ops,
        _ => panic!("expected the request to go on"),
    };
    let out = apply(hs, &ops);
    assert_eq!(out.iter().filter(|(k, _)| k == "x-arch-llm-provider").count(), 1);
    assert!(out.contains(&("x-arch-llm-provider".to_string(), "openai".to_string())));
    assert!(out.contains(&("Authorization".to_string(), "Bearer secret".to_string())));
    assert!(!out.iter().any(|(k, _)| k == "content-length"));
    assert!(c.is_chat_completions_request);

    let mut c = ctx(vec![provider("openai", Some("secret"), None, None)], false);
    let hs = headers(&[(":path", "/v1/chat/completions"), ("x-arch-llm-provider", "mine")]);
    let ops = match c.on_http_request_headers(&hs) {
        HeadersOutcome::Forward { ops } => ops,
        _ => panic!("expected the request to go on"),
    };
    let out = apply(hs, &ops);
    assert_eq!(out.iter().filter(|(k, _)| k == "x-arch-llm-provider").count(), 1);
    assert_eq!(c.llm_provider.as_ref().unwrap().name, "mine");
}

#[test]
fn missing_credentials_are_refused_unless_orchestrated() {
    let hs = headers(&[(":path", "/v1/chat/completions")]);
    let mut c = ctx(vec![provider("local", None, None, None)], false);
    match c.on_http_request_headers(&hs) {
        HeadersOutcome::Respond { status, body } => {
            assert_eq!(status, 400);
            assert_eq!(body, "No access key configured for selected LLM Provider \"local\"");
        },
        _ => panic!("expected a 400"),
    }
    let mut c = ctx(vec![provider("local", None, None, None)], true);
    assert!(matches!(c.on_http_request_headers(&hs), HeadersOutcome::Forward { .. }));
    let mut c = ctx(vec![provider("local", None, Some("local:8000"), None)], false);
    match c.on_http_request_headers(&hs) {
        HeadersOutcome::Forward { ops } => {
            let out = apply(hs.clone(), &ops);
            assert!(out.contains(&("x-arch-llm-provider".to_string(), "local".to_string())));
        },
        _ => panic!("expected the request to go on"),
    }
}

#[test]
fn provider_hint_then_default_then_first() {
    let ps = vec![
        provider("a", Some("k"), None, None),
        provider("b", Some("k"), None, Some(true)),
        provider("c", Some("k"), None, None),
    ];
    assert_eq!(get_llm_provider(&ps, &Some("c".to_string())), Some(2));
    assert_eq!(get_llm_provider(&ps, &Some("zzz".to_string())), Some(1));
    assert_eq!(get_llm_provider(&ps, &None), Some(1));
    let plain = vec![provider("a", Some("k"), None, None), provider("c", Some("k"), None, None)];
    assert_eq!(get_llm_provider(&plain, &None), Some(0));
    assert_eq!(get_llm_provider(&vec![], &None), None);
}

#[test]
fn empty_body_passes_through() {
    let mut c = ctx(vec![provider("openai", Some("k"), None, None)], false);
    assert!(matches!(c.on_http_request_body(0, true, None, 5), BodyOutcome::Continue));
    assert_eq!(c.request_body_sent_time, Some(5));
    assert!(matches!(c.on_http_request_body(10, false, None, 6), BodyOutcome::Pause));
    assert_eq!(c.request_body_sent_time, Some(5));
}

#[test]
fn rate_limit_exceeded_is_a_429() {
    let mut c = ctx(vec![provider("openai", Some("k"), None, None)], false);
    let hs = headers(&[
        (":path", "/v1/chat/completions"),
        ("x-ratelimit-selector", "tenant"),
        ("tenant", "A"),
    ]);
    assert!(matches!(c.on_http_request_headers(&hs), HeadersOutcome::Forward { .. }));
    assert_eq!(c.ratelimit_selector.as_ref().unwrap().value, "A");
    assert!(matches!(c.on_http_request_body(0, true, None, 7), BodyOutcome::Continue));
    assert_eq!(c.ratelimit_selector.as_ref().unwrap().value, "A");
    let outcome = c.on_http_request_body(40, true, Some(Ok(chat_request("none", true))), 7);
    let admission = match outcome {
        BodyOutcome::Forward { request, input_tokens, admission } => {
            assert_eq!(request.model, "gpt-4o");
            assert!(request.messages.iter().all(|m| m.model.is_none()));
            assert_eq!(request.stream_options.unwrap().include_usage, true);
            assert!(input_tokens > 0);
            admission.unwrap()
        },
        _ => panic!("expected the request to go on"),
    };
    assert_eq!(admission.selector.key, "tenant");
    assert_eq!(admission.selector.value, "A");
    assert_eq!(admission.model, "gpt-4o");
    assert!(c.ratelimit_selector.is_none());
    assert_eq!(c.user_prompt.as_deref(), Some("hello there"));
    let mut registry = RatelimitRegistry::new(vec![RatelimitRule {
        model: "gpt-4o".to_string(),
        selector_key: "tenant".to_string(),
        selector_value: Some("A".to_string()),
        tokens: 1,
        window_ns: 60_000_000_000,
    }]);
    match c.request_admission(&mut registry, &admission, 8) {
        Some(BodyOutcome::Respond { status, body }) => {
            assert_eq!(status, 429);
            assert_eq!(body, "exceeded rate limit: rate limit exceeded");
        },
        _ => panic!("expected a 429"),
    }
    match c.ratelimit_exceeded("over budget".to_string()) {
        BodyOutcome::Respond { status, body } => {
            assert_eq!(status, 429);
            assert_eq!(body, "exceeded rate limit: over budget");
        },
        _ => panic!("expected a 429"),
    }
}

#[test]
fn unknown_model_without_provider_model_is_refused() {
    let mut p = provider("openai", Some("k"), None, None);
    p.model = None;
    let mut c = ctx(vec![p], false);
    let hs = headers(&[(":path", "/v1/chat/completions")]);
    assert!(matches!(c.on_http_request_headers(&hs), HeadersOutcome::Forward { .. }));
    match c.on_http_request_body(40, true, Some(Ok(chat_request("", false))), 7) {
        BodyOutcome::Respond { status, .. } => assert_eq!(status, 400),
        _ => panic!("expected a 400"),
    }
    match c.on_http_request_body(40, true, Some(Err("eof".to_string())), 7) {
        BodyOutcome::Respond { status, body } => {
            assert_eq!(status, 400);
            assert_eq!(body, "error deserializing: eof");
        },
        _ => panic!("expected a 400"),
    }
}

fn streaming_ctx() -> StreamContext {
    let mut c = ctx(vec![provider("openai", Some("k"), None, None)], false);
    let hs = headers(&[(":path", "/v1/chat/completions"), ("traceparent", "00-0af7651916cd43dd8448eb211c80319c-b7ad6b7169203331-01")]);
    assert!(matches!(c.on_http_request_headers(&hs), HeadersOutcome::Forward { .. }));
    assert!(matches!(
        c.on_http_request_body(40, true, Some(Ok(chat_request("gpt-4o", true))), 2_000_000_000),
        BodyOutcome::Forward { .. }
    ));
    c
}

const EVENT: &str = "data: {\"model\":\"gpt-4o\",\"choices\":[{\"delta\":{\"content\":\"Hello world\"}}]}\n\n";

#[test]
fn done_chunk_is_not_accounted() {
    let mut c = streaming_ctx();
    let out = c.on_http_response_body(14, false, Some("data: [DONE]\n".to_string()), 3_000_000_000);
    assert!(out.metrics.is_empty());
    assert_eq!(c.response_tokens, 0);
    assert_eq!(c.ttft_time, None);
}

#[test]
fn time_to_first_token_is_set_once() {
    let mut c = streaming_ctx();
    let out = c.on_http_response_body(EVENT.len(), false, Some(EVENT.to_string()), 3_000_000_000);
    assert_eq!(c.ttft_time, Some(3_000_000_000));
    assert_eq!(c.ttft_duration_ms, Some(2000));
    assert_eq!(out.metrics, vec![MetricRecord::TimeToFirstToken(2000)]);
    let first = c.response_tokens;
    assert!(first > 0);
    let out = c.on_http_response_body(EVENT.len(), false, Some(EVENT.to_string()), 4_000_000_000);
    assert!(out.metrics.is_empty());
    assert_eq!(c.ttft_time, Some(3_000_000_000));
    assert_eq!(c.ttft_duration_ms, Some(2000));
    assert_eq!(c.response_tokens, 2 * first);
    let out = c.on_http_response_body(0, true, None, 5_000_000_000);
    assert_eq!(out.metrics[0], MetricRecord::RequestLatency(4000));
    assert_eq!(*out.metrics.last().unwrap(), MetricRecord::OutputSequenceLength(2 * first as u64));
    let span = out.span.unwrap();
    assert_eq!(span.name, "egress_traffic");
    assert_eq!(span.trace_id, "0af7651916cd43dd8448eb211c80319c");
    assert_eq!(span.parent_id, "b7ad6b7169203331");
    assert_eq!(span.events, vec![("time_to_first_token".to_string(), 3_000_000_000)]);
    assert_eq!(span.start_time_ns, 2_000_000_000);
    assert_eq!(span.end_time_ns, 5_000_000_000);
    assert!(span.attributes.contains(&("model".to_string(), "openai".to_string())));
    assert!(span.attributes.contains(&("user_prompt".to_string(), "hello there".to_string())));
}

#[test]
fn response_tokens_never_decrease() {
    let mut c = streaming_ctx();
    let chunks = ["garbage", EVENT, "data: [DONE]\n", "data: {not json}\n\n", EVENT];
    let mut last = 0;
    for (i, chunk) in chunks.iter().enumerate() {
        c.on_http_response_body(chunk.len(), false, Some(chunk.to_string()), 3_000_000_000 + i as u64);
        assert!(c.response_tokens >= last);
        last = c.response_tokens;
    }
}

#[test]
fn whole_reply_adds_completion_tokens() {
    let mut c = ctx(vec![provider("openai", Some("k"), None, None)], false);
    let hs = headers(&[(":path", "/v1/chat/completions")]);
    assert!(matches!(c.on_http_request_headers(&hs), HeadersOutcome::Forward { .. }));
    assert!(matches!(
        c.on_http_request_body(40, true, Some(Ok(chat_request("gpt-4o", false))), 2),
        BodyOutcome::Forward { .. }
    ));
    let body = "{\"choices\":[],\"usage\":{\"prompt_tokens\":3,\"completion_tokens\":17,\"total_tokens\":20}}";
    c.on_http_response_body(body.len(), false, Some(body.to_string()), 3);
    assert_eq!(c.response_tokens, 17);
    c.on_http_response_body(4, false, Some("oops".to_string()), 3);
    assert_eq!(c.response_tokens, 17);
}

#[test]
fn traceparent_fields() {
    assert_eq!(
        parse_traceparent("00-0af7651916cd43dd8448eb211c80319c-b7ad6b7169203331-01"),
        Some(("0af7651916cd43dd8448eb211c80319c".to_string(), "b7ad6b7169203331".to_string()))
    );
    assert_eq!(parse_traceparent("00-abc-def-01"), None);
}
