use std::rc::Rc;

use archgw::errors::ServerError;
use archgw::openai::{
    ChatCompletionsRequest, ChatCompletionsResponse, Choice, FunctionCallDetail, Message, ToolCall,
};
use archgw::path::Parameter;
use archgw::prompt_gateway::{
    Action, CallBody, EndpointDetails, Overrides, PromptTarget, ReplyBody, ResponseHandlerType,
    StreamCallContext, StreamContext,
};
use archgw::tools::{HttpMethod, ToolArg};

fn msg(role: &str, content: Option<&str>) -> Message {
    Message {
        role: role.to_string(),
        content: content.map(|c| c.to_string()),
        model: None,
        tool_calls: None,
        tool_call_id: None,
    }
}

fn weather_target(auto: Option<bool>) -> PromptTarget {
    PromptTarget {
        name: "weather".to_string(),
        default: None,
        description: "weather forecast".to_string(),
        endpoint: Some(EndpointDetails {
            name: "weather_api".to_string(),
            path: Some("/weather".to_string()),
            method: Some(HttpMethod::Get),
            http_headers: Some(vec![("x-api-key".to_string(), "k".to_string())]),
        }),
        parameters: Some(vec![Parameter {
            name: "city".to_string(),
            parameter_type: None,
            description: String::new(),
            required: Some(true),
            enum_values: None,
            default: None,
            in_path: None,
            format: None,
        }]),
        system_prompt: None,
        auto_llm_dispatch_on_response: auto,
    }
}

fn default_target() -> PromptTarget {
    PromptTarget {
        name: "fallback".to_string(),
        default: Some(true),
        description: String::new(),
        endpoint: Some(EndpointDetails {
            name: "fallback_api".to_string(),
            path: None,
            method: None,
            http_headers: None,
        }),
        parameters: None,
        system_prompt: Some("be brief".to_string()),
        auto_llm_dispatch_on_response: None,
    }
}

fn context(targets: Vec<PromptTarget>, orchestrator: bool) -> StreamContext {
    let overrides = Overrides {
        prompt_target_intent_matching_threshold: None,
        optimize_context_window: Some(true),
        use_agent_orchestrator: Some(orchestrator),
    };
    let mut ctx = StreamContext::new(
        1,
        Rc::new(Some("you are helpful".to_string())),
        Rc::new(targets),
        Rc::new(Some(overrides)),
        Rc::new(None),
    );
    ctx.request_id = Some("req-1".to_string());
    ctx
}

fn request(messages: Vec<Message>) -> ChatCompletionsRequest {
    ChatCompletionsRequest {
        model: "gpt-4o".to_string(),
        messages,
        tools: None,
        stream: false,
        stream_options: None,
        metadata: None,
    }
}

fn fc_context(messages: Vec<Message>) -> StreamCallContext {
    StreamCallContext {
        response_handler_type: ResponseHandlerType::ArchFC,
        user_message: Some("what is the weather in Seattle?".to_string()),
        prompt_target_name: None,
        request_body: request(messages),
        upstream_cluster: None,
        upstream_cluster_path: None,
    }
}

fn tool_call(id: &str, name: &str, city: &str) -> ToolCall {
    ToolCall {
        id: id.to_string(),
        tool_type: "function".to_string(),
        function: FunctionCallDetail {
            name: name.to_string(),
            arguments: Some(vec![("city".to_string(), ToolArg::Text(city.to_string()))]),
        },
    }
}

fn fc_response(tool_calls: Option<Vec<ToolCall>>, matched: bool) -> ChatCompletionsResponse {
    ChatCompletionsResponse {
        model: "Arch-Function".to_string(),
        choices: vec![Choice {
            index: 0,
            message: Message {
                role: "assistant".to_string(),
                content: Some("which city?".to_string()),
                model: None,
                tool_calls,
                tool_call_id: None,
            },
            finish_reason: None,
        }],
        usage: None,
        metadata: if matched {
            Some(vec![("function_latency".to_string(), "12".to_string())])
        } else {
            None
        },
    }
}

fn history() -> Vec<Message> {
    vec![
        msg("user", Some("hi")),
        msg("assistant", Some("hello")),
        msg("tool", Some("ignored")),
        msg("user", Some("what is the weather in Seattle?")),
    ]
}

#[test]
fn intent_match_dispatches_then_appends_context() {
    let mut ctx = context(vec![weather_target(None)], false);
    let response = fc_response(Some(vec![tool_call("1", "weather", "Seattle")]), true);
    let action = ctx.arch_fc_response_handler(String::new(), Ok(response), fc_context(history()));
    let (call, call_context) = match action {
        Action::Dispatch { call, context } => (call, context),
        _ => panic!("expected a callout"),
    };
    assert_eq!(call.upstream, "arch_internal");
    assert_eq!(call.path, "/weather?city=Seattle");
    assert!(call.body.is_none());
    assert!(call.headers.contains(&(":method".to_string(), "GET".to_string())));
    assert!(call.headers.contains(&("x-request-id".to_string(), "req-1".to_string())));
    assert!(call.headers.contains(&("x-api-key".to_string(), "k".to_string())));
    assert_eq!(call_context.response_handler_type, ResponseHandlerType::FunctionCall);
    assert_eq!(call_context.upstream_cluster.as_deref(), Some("weather_api"));

    ctx.add_callout(7, call_context);
    let api_body = "{\"tempF\":72}".to_string();
    let action = ctx.on_http_call_response(7, Some("200".to_string()), api_body, Err("not json".to_string()), 99);
    let request = match action {
        Action::Resume { request } => request,
        _ => panic!("expected the request to resume"),
    };
    assert!(ctx.callouts.is_empty());
    let last = request.messages.last().unwrap();
    assert_eq!(last.role, "user");
    assert_eq!(
        last.content.as_deref(),
        Some("what is the weather in Seattle?\ncontext: {\"tempF\":72}")
    );
    assert_eq!(request.messages[0].role, "system");
    assert_eq!(request.messages.len(), 4);
    assert_eq!(ctx.start_upstream_llm_request_time, 99);
    assert_eq!(ctx.tool_call_response.as_deref(), Some("{\"tempF\":72}"));
}

#[test]
fn several_tool_calls_use_the_first() {
    let mut ctx = context(vec![weather_target(None)], false);
    let calls = vec![tool_call("1", "weather", "Paris"), tool_call("2", "other", "Rome")];
    let action = ctx.arch_fc_response_handler(String::new(), Ok(fc_response(Some(calls), true)), fc_context(history()));
    match action {
        Action::Dispatch { call, context } => {
            assert_eq!(call.path, "/weather?city=Paris");
            assert_eq!(context.prompt_target_name.as_deref(), Some("weather"));
        },
        _ => panic!("expected a callout"),
    }
    assert_eq!(ctx.tool_calls.as_ref().unwrap().len(), 2);
}

#[test]
fn no_tool_call_replies_with_the_model_message() {
    let mut ctx = context(vec![weather_target(None)], false);
    let raw = "{\"raw\":true}".to_string();
    let action = ctx.arch_fc_response_handler(raw.clone(), Ok(fc_response(Some(vec![]), true)), fc_context(history()));
    match action {
        Action::SendResponse { status, body: ReplyBody::Text(t) } => {
            assert_eq!(status, 200);
            assert_eq!(t, raw);
        },
        _ => panic!("expected a direct reply"),
    }
    ctx.streaming_response = true;
    let action = ctx.arch_fc_response_handler(raw, Ok(fc_response(None, true)), fc_context(history()));
    match action {
        Action::SendResponse { status, body: ReplyBody::Events(ev) } => {
            assert_eq!(status, 200);
            assert_eq!(ev.len(), 2);
            assert_eq!(ev[0].role.as_deref(), Some("assistant"));
            assert_eq!(ev[1].content.as_deref(), Some("which city?"));
        },
        _ => panic!("expected streamed events"),
    }
    assert!(ctx.tool_calls.is_none());
}

#[test]
fn no_intent_without_default_goes_to_the_llm() {
    let mut ctx = context(vec![weather_target(None)], false);
    let action = ctx.arch_fc_response_handler(String::new(), Ok(fc_response(None, false)), fc_context(history()));
    match action {
        Action::Resume { request } => {
            let roles: Vec<&str> = request.messages.iter().map(|m| m.role.as_str()).collect();
            assert_eq!(roles, vec!["system", "user", "assistant", "user"]);
            assert!(request.metadata.is_none());
        },
        _ => panic!("expected the request to resume"),
    }
}

#[test]
fn no_intent_with_default_calls_the_default_target() {
    let mut ctx = context(vec![weather_target(None), default_target()], false);
    let action = ctx.arch_fc_response_handler(String::new(), Ok(fc_response(None, false)), fc_context(history()));
    let (call, call_context) = match action {
        Action::Dispatch { call, context } => (call, context),
        _ => panic!("expected a callout"),
    };
    assert_eq!(call.path, "/");
    assert!(matches!(call.body, Some(CallBody::ContextMessages)));
    assert!(call.headers.contains(&(":method".to_string(), "POST".to_string())));
    assert!(call.headers.contains(&("x-envoy-max-retries".to_string(), "3".to_string())));
    assert_eq!(call.timeout_ms, 5000);
    assert_eq!(call_context.response_handler_type, ResponseHandlerType::DefaultTarget);

    let reply = fc_response(None, false);
    let action = ctx.default_target_handler(String::new(), Ok(reply), call_context);
    match action {
        Action::Resume { request } => {
            assert_eq!(request.messages[0].content.as_deref(), Some("be brief"));
            let last = request.messages.last().unwrap();
            assert_eq!(last.role, "user");
            assert_eq!(
                last.content.as_deref(),
                Some("what is the weather in Seattle?\ncontext: which city?")
            );
        },
        _ => panic!("expected the request to resume"),
    }
}

#[test]
fn orchestrator_gets_the_agent_name() {
    let mut ctx = context(vec![weather_target(None)], true);
    let response = fc_response(Some(vec![tool_call("1", "weather", "Oslo")]), true);
    let action = ctx.arch_fc_response_handler(String::new(), Ok(response), fc_context(history()));
    match action {
        Action::Resume { request } => {
            let metadata = request.metadata.unwrap();
            assert!(metadata.contains(&("agent-name".to_string(), "weather".to_string())));
            assert!(metadata.contains(&("use_agent_orchestrator".to_string(), "true".to_string())));
            assert!(metadata.contains(&("optimize_context_window".to_string(), "true".to_string())));
        },
        _ => panic!("expected the request to resume"),
    }
}

#[test]
fn api_reply_without_auto_dispatch_goes_to_the_client() {
    let mut ctx = context(vec![weather_target(Some(false))], false);
    let mut call_context = fc_context(history());
    call_context.prompt_target_name = Some("weather".to_string());
    let action = ctx.api_call_response_handler(None, "sunny".to_string(), call_context, 1);
    match action {
        Action::SendResponse { status, body: ReplyBody::Text(t) } => {
            assert_eq!(status, 200);
            assert_eq!(t, "sunny");
        },
        _ => panic!("expected a direct reply"),
    }
}

#[test]
fn upstream_errors_are_echoed() {
    let mut ctx = context(vec![weather_target(None)], false);
    let mut call_context = fc_context(history());
    call_context.prompt_target_name = Some("weather".to_string());
    call_context.upstream_cluster = Some("weather_api".to_string());
    call_context.upstream_cluster_path = Some("/weather".to_string());
    ctx.add_callout(3, call_context);
    let action = ctx.on_http_call_response(3, Some("503".to_string()), "down".to_string(), Err(String::new()), 0);
    match action {
        Action::SendResponse { status, body: ReplyBody::Text(t) } => {
            assert_eq!(status, 503);
            assert_eq!(t, "upstream error: host: weather_api, path: /weather, status: 503, body: down");
        },
        _ => panic!("expected an error reply"),
    }
    let action = ctx.on_http_call_response(3, None, String::new(), Err(String::new()), 0);
    assert!(matches!(action, Action::Ignore));
}

#[test]
fn filtering_history_twice_keeps_the_same() {
    let ctx = context(vec![], false);
    let mut with_call = msg("assistant", Some("calling"));
    with_call.tool_calls = Some(vec![tool_call("1", "weather", "Oslo")]);
    let h = vec![msg("user", Some("a")), msg("tool", Some("b")), msg("assistant", None), with_call, msg("user", Some("c"))];
    let once = ctx.filter_out_arch_messages(h);
    let contents: Vec<Option<String>> = once.iter().map(|m| m.content.clone()).collect();
    assert_eq!(contents, vec![Some("a".to_string()), Some("c".to_string())]);
    let twice = ctx.filter_out_arch_messages(once);
    let contents2: Vec<Option<String>> = twice.iter().map(|m| m.content.clone()).collect();
    assert_eq!(contents, contents2);
}

#[test]
fn server_errors_default_to_500() {
    let ctx = context(vec![], false);
    match ctx.send_server_error(ServerError::LogicError("boom".to_string()), None) {
        Action::SendResponse { status, body: ReplyBody::Text(t) } => {
            assert_eq!(status, 500);
            assert_eq!(t, "boom");
        },
        _ => panic!("expected an error reply"),
    }
}

#[test]
fn generated_messages_carry_the_tool_call() {
    let mut ctx = context(vec![], false);
    ctx.tool_calls = Some(vec![tool_call("call-9", "weather", "Oslo")]);
    ctx.tool_call_response = Some("cold".to_string());
    let m = ctx.generate_toll_call_message();
    assert_eq!(m.role, "assistant");
    assert_eq!(m.tool_calls.unwrap()[0].function.name, "weather");
    let m = ctx.generate_api_response_message();
    assert_eq!(m.role, "tool");
    assert_eq!(m.tool_call_id.as_deref(), Some("call-9"));
    assert_eq!(m.content.as_deref(), Some("cold"));
}

#[test]
fn chat_request_goes_to_the_function_calling_model() {
    let mut ctx = context(vec![weather_target(None)], false);
    ctx.on_http_request_headers(&vec![
        (":path".to_string(), "/v1/chat/completions".to_string()),
        ("x-request-id".to_string(), "abc".to_string()),
    ]);
    assert!(ctx.is_chat_completions_request);
    let (d, a) = ctx.on_http_request_body(10, false, None);
    assert_eq!(d, archgw::prompt_gateway::Disposition::Pause);
    assert!(matches!(a, Action::Ignore));
    let (d, a) = ctx.on_http_request_body(120, true, Some(Ok(request(history()))));
    assert_eq!(d, archgw::prompt_gateway::Disposition::Pause);
    match a {
        Action::Dispatch { call, context } => {
            assert_eq!(call.path, "/function_calling");
            assert!(matches!(call.body, Some(CallBody::ContextRequest)));
            assert!(call.headers.contains(&("x-request-id".to_string(), "abc".to_string())));
            assert_eq!(context.response_handler_type, ResponseHandlerType::ArchFC);
            assert_eq!(context.user_message.as_deref(), Some("what is the weather in Seattle?"));
        },
        _ => panic!("expected a callout"),
    }
    assert_eq!(ctx.request_body_size, 120);
    let (_, a) = ctx.on_http_request_body(5, true, Some(Err("bad".to_string())));
    match a {
        Action::SendResponse { status, body: ReplyBody::Text(t) } => {
            assert_eq!(status, 400);
            assert_eq!(t, "error deserializing: bad");
        },
        _ => panic!("expected a 400"),
    }
}

#[test]
fn any_2xx_api_reply_is_a_success() {
    let mut ctx = context(vec![weather_target(None)], false);
    let mut call_context = fc_context(history());
    call_context.prompt_target_name = Some("weather".to_string());
    let action = ctx.api_call_response_handler(Some("201".to_string()), "{\"ok\":1}".to_string(), call_context, 5);
    match action {
        Action::Resume { request } => {
            let last = request.messages.last().unwrap();
            assert_eq!(last.role, "user");
            assert_eq!(
                last.content.as_deref(),
                Some("what is the weather in Seattle?\ncontext: {\"ok\":1}")
            );
        },
        _ => panic!("expected the request to resume"),
    }

    let mut ctx = context(vec![weather_target(Some(false))], false);
    let mut call_context = fc_context(history());
    call_context.prompt_target_name = Some("weather".to_string());
    match ctx.api_call_response_handler(Some("201".to_string()), "made".to_string(), call_context, 5) {
        Action::SendResponse { status, body: ReplyBody::Text(t) } => {
            assert_eq!(status, 200);
            assert_eq!(t, "made");
        },
        _ => panic!("expected a direct reply"),
    }

    let mut ctx = context(vec![weather_target(None)], false);
    let mut call_context = fc_context(history());
    call_context.prompt_target_name = Some("weather".to_string());
    match ctx.api_call_response_handler(Some("404".to_string()), "gone".to_string(), call_context, 5) {
        Action::SendResponse { status, .. } => assert_eq!(status, 404),
        _ => panic!("expected an error reply"),
    }
}

#[test]
fn default_target_reply_uses_the_filtered_history() {
    let ctx = context(vec![default_target()], false);
    let mut h = history();
    h.push(msg("tool", Some("tool output")));
    let call_context = StreamCallContext {
        response_handler_type: ResponseHandlerType::DefaultTarget,
        user_message: None,
        prompt_target_name: Some("fallback".to_string()),
        request_body: request(h),
        upstream_cluster: None,
        upstream_cluster_path: None,
    };
    match ctx.default_target_handler(String::new(), Ok(fc_response(None, false)), call_context) {
        Action::Resume { request } => {
            let roles: Vec<&str> = request.messages.iter().map(|m| m.role.as_str()).collect();
            assert_eq!(roles, vec!["system", "user", "assistant", "user"]);
            assert_eq!(
                request.messages.last().unwrap().content.as_deref(),
                Some("what is the weather in Seattle?\ncontext: which city?")
            );
        },
        _ => panic!("expected the request to resume"),
    }
}

#[test]
fn direct_reply_needs_no_conversation() {
    let mut ctx = StreamContext::new(
        1,
        Rc::new(None),
        Rc::new(vec![weather_target(Some(false))]),
        Rc::new(None),
        Rc::new(None),
    );
    let mut call_context = fc_context(vec![msg("tool", Some("only a tool result"))]);
    call_context.prompt_target_name = Some("weather".to_string());
    match ctx.api_call_response_handler(None, "raw".to_string(), call_context, 1) {
        Action::SendResponse { status, body: ReplyBody::Text(t) } => {
            assert_eq!(status, 200);
            assert_eq!(t, "raw");
        },
        _ => panic!("expected a direct reply"),
    }
}
