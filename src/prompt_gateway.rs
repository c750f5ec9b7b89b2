//! The prompt gateway: resolves the intent of a user turn through a
//! function-calling model, calls the developer endpoint of the matched prompt
//! target, and rewrites the chat request with the result before it goes on to
//! the LLM. The host's events come in as plain values and the work for the host
//! goes out as an `Action`.
use std::rc::Rc;
use vstd::prelude::*;
use crate::errors::{error_text, parse_status, status_code_of, upstream_text, ServerError};
use crate::openai::{
    copy_tool_calls, tool_calls_view, ChatCompletionStreamResponse, ChatCompletionsRequest,
    ChatCompletionsResponse, Message, ToolCall,
};
use crate::path::{find_value, has_key, lookup, pairs_view, params_view, put, put_pair, Parameter};
use crate::text::text_eq;
use crate::tools::{compute_request_path_body, path_body_of, put_all, tool_args_view, HttpMethod};

verus! {

/// The HTTP endpoint of a prompt target.
pub struct EndpointDetails {
    pub name: String,
    pub path: Option<String>,
    pub method: Option<HttpMethod>,
    pub http_headers: Option<Vec<(String, String)>>,
}

/// A developer-declared function that a user turn can resolve to.
pub struct PromptTarget {
    pub name: String,
    pub default: Option<bool>,
    pub description: String,
    pub endpoint: Option<EndpointDetails>,
    pub parameters: Option<Vec<Parameter>>,
    pub system_prompt: Option<String>,
    pub auto_llm_dispatch_on_response: Option<bool>,
}

/// Gateway-wide switches.
pub struct Overrides {
    pub prompt_target_intent_matching_threshold: Option<u64>,
    pub optimize_context_window: Option<bool>,
    pub use_agent_orchestrator: Option<bool>,
}

/// Tracing configuration.
pub struct Tracing {
    pub sampling_rate: Option<u64>,
    pub trace_arch_internal: Option<bool>,
}

/// Which reply a pending callout waits for.
#[derive(PartialEq, Eq, Structural, Clone, Copy, Debug)]
pub enum ResponseHandlerType {
    ArchFC,
    FunctionCall,
    DefaultTarget,
}

/// What a pending callout carries until its reply arrives.
pub struct StreamCallContext {
    pub response_handler_type: ResponseHandlerType,
    pub user_message: Option<String>,
    pub prompt_target_name: Option<String>,
    pub request_body: ChatCompletionsRequest,
    pub upstream_cluster: Option<String>,
    pub upstream_cluster_path: Option<String>,
}

/// The body of a callout.
pub enum CallBody {
    Text(String),
    /// A JSON object with the single member `messages`.
    Messages(Vec<Message>),
    /// A JSON object whose single member `messages` is the history of the
    /// request that the callout's context carries.
    ContextMessages,
    /// The chat request that the callout's context carries.
    ContextRequest,
}

/// A callout to issue through the host.
pub struct CallArgs {
    pub upstream: String,
    pub path: String,
    pub headers: Vec<(String, String)>,
    pub body: Option<CallBody>,
    pub timeout_ms: u64,
}

/// The body of a direct reply.
pub enum ReplyBody {
    Text(String),
    /// Server-sent events, terminated by `[DONE]`.
    Events(Vec<ChatCompletionStreamResponse>),
}

/// What the host is to do next with the request.
pub enum Action {
    /// Answer the client and end the request.
    SendResponse { status: u16, body: ReplyBody },
    /// Replace the request body with `request` and resume the request.
    Resume { request: ChatCompletionsRequest },
    /// Issue `call`; its reply belongs to `context`.
    Dispatch { call: CallArgs, context: StreamCallContext },
    /// Nothing: the event was not for this stream.
    Ignore,
}

pub const ARCH_INTERNAL_CLUSTER_NAME: &'static str = "arch_internal";
pub const ARCH_UPSTREAM_HOST_HEADER: &'static str = "x-arch-upstream";
pub const ARCH_FC_MODEL_NAME: &'static str = "Arch-Function";
pub const REQUEST_ID_HEADER: &'static str = "x-request-id";
pub const TRACE_PARENT_HEADER: &'static str = "traceparent";
pub const API_REQUEST_TIMEOUT_MS: u64 = 30000;
pub const DEFAULT_TARGET_REQUEST_TIMEOUT_MS: u64 = 30000;
pub const CALLOUT_TIMEOUT_MS: u64 = 5000;
pub const FUNCTION_CALLING_PATH: &'static str = "/function_calling";
pub const CHAT_COMPLETIONS_PATH: &'static str = "/v1/chat/completions";

/// How the host goes on with the request after an event.
#[derive(PartialEq, Eq, Structural, Clone, Copy, Debug)]
pub enum Disposition {
    Continue,
    Pause,
}

/// The headers of the call to the function-calling model.
pub open spec fn fc_call_headers(request_id: Option<Seq<char>>) -> Seq<(Seq<char>, Seq<char>)> {
    let base = seq![
        (":method"@, "POST"@),
        (":path"@, FUNCTION_CALLING_PATH@),
        (":authority"@, "arch_fc"@),
        ("content-type"@, "application/json"@),
        ("x-envoy-max-retries"@, "3"@),
    ];
    match request_id {
        Some(id) => base.push(("x-request-id"@, id)),
        None => base,
    }
}

/// The content of the last user message.
pub open spec fn last_user_text(ms: Seq<Message>) -> Option<Seq<char>>
    decreases ms.len(),
{
    if ms.len() == 0 {
        None
    } else if ms.last().role@ == "user"@ {
        opt_view(ms.last().content)
    } else {
        last_user_text(ms.drop_last())
    }
}

/// A message that takes part in the conversation sent to the LLM: not a tool
/// result, with content, and carrying no tool calls.
pub open spec fn is_conversation_message(m: Message) -> bool {
    &&& m.role@ != "tool"@
    &&& m.content is Some
    &&& !(m.tool_calls is Some && m.tool_calls->Some_0@.len() > 0)
}

/// The conversation messages of a history, in order.
pub open spec fn filter_history(h: Seq<Message>) -> Seq<Message>
    decreases h.len(),
{
    if h.len() == 0 {
        Seq::empty()
    } else {
        let r = filter_history(h.drop_last());
        if is_conversation_message(h.last()) {
            r.push(h.last())
        } else {
            r
        }
    }
}

proof fn lemma_filter_history_kept(h: Seq<Message>)
    ensures
        forall|i: int| 0 <= i < filter_history(h).len() ==> is_conversation_message(#[trigger] filter_history(h)[i]),
    decreases h.len(),
{
    if h.len() > 0 {
        lemma_filter_history_kept(h.drop_last());
        let r = filter_history(h.drop_last());
        assert forall|i: int| 0 <= i < filter_history(h).len() implies is_conversation_message(
            #[trigger] filter_history(h)[i],
        ) by {
            if i < r.len() {
                assert(filter_history(h)[i] == r[i]);
            }
        }
    }
}

proof fn lemma_filter_history_all_kept(h: Seq<Message>)
    requires
        forall|i: int| 0 <= i < h.len() ==> is_conversation_message(#[trigger] h[i]),
    ensures
        filter_history(h) == h,
    decreases h.len(),
{
    if h.len() > 0 {
        lemma_filter_history_all_kept(h.drop_last());
        assert(h.drop_last().push(h.last()) =~= h);
        assert(is_conversation_message(h[h.len() - 1]));
    } else {
        assert(h =~= Seq::<Message>::empty());
    }
}

/// Filtering a history twice keeps what filtering it once keeps.
pub proof fn law_filter_history_idempotent(h: Seq<Message>)
    ensures
        filter_history(filter_history(h)) == filter_history(h),
{
    lemma_filter_history_kept(h);
    lemma_filter_history_all_kept(filter_history(h));
}

/// Whether `m` is a fresh message of role `role` whose content reads `text`.
pub open spec fn is_plain_message(m: Message, role: Seq<char>, text: Seq<char>) -> bool {
    &&& m.role@ == role
    &&& m.content is Some
    &&& m.content->Some_0@ == text
    &&& m.model is None
    &&& m.tool_calls is None
    &&& m.tool_call_id is None
}

/// A new message of the given role and content.
fn plain_message(role: &str, content: String) -> (r: Message)
    ensures
        is_plain_message(r, role@, content@),
{
    Message {
        role: String::from_str(role),
        content: Some(content),
        model: None,
        tool_calls: None,
        tool_call_id: None,
    }
}

/// The messages sent to the LLM: the system prompt, if any, then the
/// conversation messages of the history.
pub open spec fn is_llm_messages(r: Seq<Message>, system: Option<Seq<char>>, h: Seq<Message>) -> bool {
    match system {
        Some(s) => r.len() >= 1 && is_plain_message(r[0], "system"@, s) && r.skip(1) == filter_history(h),
        None => r == filter_history(h),
    }
}

/// The first prompt target named `name`.
pub open spec fn target_index(ts: Seq<PromptTarget>, name: Seq<char>) -> Option<int>
    decreases ts.len(),
{
    if ts.len() == 0 {
        None
    } else {
        match target_index(ts.drop_last(), name) {
            Some(i) => Some(i),
            None => if ts.last().name@ == name {
                Some(ts.len() - 1)
            } else {
                None
            },
        }
    }
}

/// The first prompt target marked as the default.
pub open spec fn default_index(ts: Seq<PromptTarget>) -> Option<int>
    decreases ts.len(),
{
    if ts.len() == 0 {
        None
    } else {
        match default_index(ts.drop_last()) {
            Some(i) => Some(i),
            None => if ts.last().default == Some(true) {
                Some(ts.len() - 1)
            } else {
                None
            },
        }
    }
}

pub open spec fn opt_view(o: Option<String>) -> Option<Seq<char>> {
    match o {
        Some(s) => Some(s@),
        None => None,
    }
}

/// Whether a callout reply's status is a success: absent (read as `200`), or
/// a number in `200..300`.
pub open spec fn success_status(status: Option<String>) -> bool {
    match status {
        None => true,
        Some(s) => status_code_of(s@) is Some && 200 <= status_code_of(s@)->Some_0 < 300,
    }
}

/// Whether a prompt target hands its endpoint's reply to the LLM.
pub open spec fn auto_dispatch(t: PromptTarget) -> bool {
    t.auto_llm_dispatch_on_response != Some(false)
}

/// The content of a message, or empty text.
pub open spec fn text_of(m: Message) -> Seq<char> {
    match m.content {
        Some(c) => c@,
        None => Seq::empty(),
    }
}

/// The text of an optional string, or empty text.
pub open spec fn opt_text(o: Option<String>) -> Seq<char> {
    match o {
        Some(s) => s@,
        None => Seq::empty(),
    }
}

/// A user prompt with the result of a call appended as context.
pub open spec fn context_text(orig: Seq<char>, api: Seq<char>) -> Seq<char> {
    orig + "\ncontext: "@ + api
}

/// `rm` is `l` with its last message replaced by a user message whose
/// content is that message's content with `api` appended as context.
pub open spec fn with_context(rm: Seq<Message>, l: Seq<Message>, api: Seq<char>) -> bool {
    &&& l.len() > 0
    &&& rm.len() == l.len()
    &&& rm.take(l.len() - 1) == l.drop_last()
    &&& is_plain_message(rm.last(), "user"@, context_text(text_of(l.last()), api))
}

/// Replaces the last message by a user message carrying `api` as context.
fn append_context(messages: Vec<Message>, api: &str) -> (r: Option<Vec<Message>>)
    ensures
        messages@.len() == 0 ==> r is None,
        messages@.len() > 0 ==> r is Some && with_context(r->Some_0@, messages@, api@),
{
    let ghost l = messages@;
    let mut messages = messages;
    match messages.pop() {
        None => None,
        Some(last) => {
            let mut prompt = match last.content {
                Some(c) => c,
                None => String::new(),
            };
            prompt.append("\ncontext: ");
            prompt.append(api);
            messages.push(plain_message("user", prompt));
            assert(messages@.take(l.len() - 1) =~= l.drop_last());
            Some(messages)
        },
    }
}

/// The two events of a direct streamed reply: a role-only preamble, then the
/// content.
pub open spec fn is_direct_events(
    ev: Seq<ChatCompletionStreamResponse>,
    content: Option<Seq<char>>,
    model: Seq<char>,
) -> bool {
    &&& ev.len() == 2
    &&& opt_view(ev[0].role) == Some("assistant"@)
    &&& ev[0].content is None
    &&& opt_view(ev[0].model) == Some(model)
    &&& ev[1].role is None
    &&& opt_view(ev[1].content) == content
    &&& opt_view(ev[1].model) == Some(model)
}

fn direct_events(content: Option<String>, model: &str) -> (r: Vec<ChatCompletionStreamResponse>)
    ensures
        is_direct_events(r@, opt_view(content), model@),
{
    let mut v: Vec<ChatCompletionStreamResponse> = Vec::new();
    v.push(ChatCompletionStreamResponse::new(None, Some(String::from_str("assistant")), Some(String::from_str(model))));
    v.push(ChatCompletionStreamResponse::new(content, None, Some(String::from_str(model))));
    v
}

/// Whether `r` answers the client with `status`.
pub open spec fn is_reply(r: Action, status: u16) -> bool {
    r matches Action::SendResponse { status: c, .. } && c == status
}

/// Whether `r` answers the client with `status` and the text `t`.
pub open spec fn is_text_reply(r: Action, status: u16, t: Seq<char>) -> bool {
    r matches Action::SendResponse { status: c, body: ReplyBody::Text(b) } && c == status && b@ == t
}

/// Whether `r` answers with the direct reply `content`: as two events from
/// `model` on a streamed request, else as `raw`.
pub open spec fn is_direct_reply(r: Action, streaming: bool, content: Option<Seq<char>>, model: Seq<char>, raw: Seq<char>) -> bool {
    if streaming {
        r matches Action::SendResponse { status: c, body: ReplyBody::Events(ev) } && c == 200
            && is_direct_events(ev@, content, model)
    } else {
        is_text_reply(r, 200, raw)
    }
}

/// Whether `r` resumes the request with `req`'s model and streaming settings,
/// no tools and no metadata.
pub open spec fn resumes_like(r: Action, req: ChatCompletionsRequest) -> bool {
    r matches Action::Resume { request } && request.model == req.model && request.stream == req.stream
        && request.stream_options == req.stream_options && request.tools is None
        && request.metadata is None
}

/// The content of the first choice of a reply, if there is one.
pub open spec fn first_content(resp: ChatCompletionsResponse) -> Option<Seq<char>> {
    if resp.choices@.len() > 0 {
        opt_view(resp.choices@[0].message.content)
    } else {
        None
    }
}

fn first_choice_content(resp: &ChatCompletionsResponse) -> (r: Option<String>)
    ensures
        opt_view(r) == first_content(*resp),
{
    if resp.choices.len() > 0 {
        match &resp.choices[0].message.content {
            Some(c) => Some(c.clone()),
            None => None,
        }
    } else {
        None
    }
}

/// The headers of a call to a developer endpoint: routing, method, path,
/// content type, retries and timeout, then the request id and trace parent
/// when known, then the endpoint's own headers, each overriding what came
/// before under its name.
pub open spec fn api_call_headers(
    endpoint: Seq<char>,
    method: Seq<char>,
    path: Seq<char>,
    request_id: Option<Seq<char>>,
    traceparent: Option<Seq<char>>,
    statics: Seq<(Seq<char>, Seq<char>)>,
) -> Seq<(Seq<char>, Seq<char>)> {
    let base = seq![
        ("x-arch-upstream"@, endpoint),
        (":method"@, method),
        (":path"@, path),
        (":authority"@, endpoint),
        ("content-type"@, "application/json"@),
        ("x-envoy-max-retries"@, "3"@),
        ("x-envoy-upstream-rq-timeout-ms"@, "30000"@),
    ];
    let h1 = match request_id {
        Some(id) => put(base, "x-request-id"@, id),
        None => base,
    };
    let h2 = match traceparent {
        Some(tp) => put(h1, "traceparent"@, tp),
        None => h1,
    };
    put_all(h2, statics)
}

/// Whether the function-calling model matched an intent: its metadata has
/// `function_latency`.
pub open spec fn intent_matched(resp: ChatCompletionsResponse) -> bool {
    resp.metadata is Some && has_key(pairs_view(resp.metadata->Some_0@), "function_latency"@)
}

/// The tool calls of the first choice, if there is one.
pub open spec fn first_tool_calls(resp: ChatCompletionsResponse) -> Option<Vec<ToolCall>> {
    if resp.choices@.len() > 0 {
        resp.choices@[0].message.tool_calls
    } else {
        None
    }
}

/// Whether requests go to the agent orchestrator.
pub open spec fn orchestrator_on(o: Option<Overrides>) -> bool {
    o is Some && o->Some_0.use_agent_orchestrator == Some(true)
}

/// Whether the orchestrator is asked to optimize its context window.
pub open spec fn optimize_on(o: Option<Overrides>) -> bool {
    o is Some && o->Some_0.optimize_context_window == Some(true)
}

/// The metadata that hands a turn to the agent orchestrator.
pub open spec fn orchestrator_metadata(agent: Seq<char>, optimize: bool) -> Seq<(Seq<char>, Seq<char>)> {
    let m = seq![("use_agent_orchestrator"@, "true"@), ("agent-name"@, agent)];
    if optimize {
        m.push(("optimize_context_window"@, "true"@))
    } else {
        m
    }
}

/// The headers of a call to the default target.
pub open spec fn default_call_headers(
    endpoint: Seq<char>,
    path: Seq<char>,
    request_id: Option<Seq<char>>,
) -> Seq<(Seq<char>, Seq<char>)> {
    let base = seq![
        (":method"@, "POST"@),
        ("x-arch-upstream"@, endpoint),
        (":path"@, path),
        (":authority"@, endpoint),
        ("content-type"@, "application/json"@),
        ("x-envoy-max-retries"@, "3"@),
        ("x-envoy-upstream-rq-timeout-ms"@, "30000"@),
    ];
    match request_id {
        Some(id) => base.push(("x-request-id"@, id)),
        None => base,
    }
}

/// `i` is the first pending callout with token `t`.
pub open spec fn is_first_token(cs: Seq<(u32, StreamCallContext)>, t: u32, i: int) -> bool {
    &&& 0 <= i < cs.len()
    &&& cs[i].0 == t
    &&& forall|j: int| 0 <= j < i ==> cs[j].0 != t
}

/// Whether some pending callout has token `t`.
pub open spec fn has_token(cs: Seq<(u32, StreamCallContext)>, t: u32) -> bool {
    exists|i: int| 0 <= i < cs.len() && cs[i].0 == t
}

/// The per-request state of the prompt gateway.
pub struct StreamContext {
    pub system_prompt: Rc<Option<String>>,
    pub prompt_targets: Rc<Vec<PromptTarget>>,
    pub overrides: Rc<Option<Overrides>>,
    pub callouts: Vec<(u32, StreamCallContext)>,
    pub context_id: u32,
    pub tool_calls: Option<Vec<ToolCall>>,
    pub tool_call_response: Option<String>,
    pub request_body_size: usize,
    pub user_prompt: Option<Message>,
    pub streaming_response: bool,
    pub is_chat_completions_request: bool,
    pub request_id: Option<String>,
    pub start_upstream_llm_request_time: u64,
    pub time_to_first_token: Option<u64>,
    pub traceparent: Option<String>,
    pub _tracing: Rc<Option<Tracing>>,
}

impl StreamContext {
    /// A fresh context for one request.
    pub fn new(
        context_id: u32,
        system_prompt: Rc<Option<String>>,
        prompt_targets: Rc<Vec<PromptTarget>>,
        overrides: Rc<Option<Overrides>>,
        tracing: Rc<Option<Tracing>>,
    ) -> (r: Self)
        ensures
            r.context_id == context_id,
            r.system_prompt == system_prompt,
            r.prompt_targets == prompt_targets,
            r.overrides == overrides,
            r._tracing == tracing,
            r.callouts@.len() == 0,
            r.tool_calls is None,
            r.tool_call_response is None,
            r.request_body_size == 0,
            r.user_prompt is None,
            !r.streaming_response,
            !r.is_chat_completions_request,
            r.request_id is None,
            r.start_upstream_llm_request_time == 0,
            r.time_to_first_token is None,
            r.traceparent is None,
    {
        StreamContext {
            context_id,
            system_prompt,
            prompt_targets,
            overrides,
            callouts: Vec::new(),
            tool_calls: None,
            tool_call_response: None,
            request_body_size: 0,
            user_prompt: None,
            streaming_response: false,
            is_chat_completions_request: false,
            request_id: None,
            start_upstream_llm_request_time: 0,
            time_to_first_token: None,
            traceparent: None,
            _tracing: tracing,
        }
    }

    /// The direct reply for `error`: its text, with `override_status_code` or
    /// else `500`.
    pub fn send_server_error(&self, error: ServerError, override_status_code: Option<u16>) -> (r: Action)
        ensures
            is_text_reply(
                r,
                match override_status_code {
                    Some(c) => c,
                    None => 500,
                },
                error_text(error),
            ),
    {
        let status = match override_status_code {
            Some(c) => c,
            None => 500,
        };
        Action::SendResponse { status, body: ReplyBody::Text(error.to_text()) }
    }

    /// Whether the gateway's own calls are traced.
    pub fn _trace_arch_internal(&self) -> (r: bool)
        ensures
            r == match *self._tracing {
                Some(t) => t.trace_arch_internal == Some(true),
                None => false,
            },
    {
        match &*self._tracing {
            Some(tracing) => match tracing.trace_arch_internal {
                Some(b) => b,
                None => false,
            },
            None => false,
        }
    }

    /// The system prompt for a turn: the target's own, else the global one.
    pub fn get_system_prompt(&self, prompt_target: Option<&PromptTarget>) -> (r: Option<String>)
        ensures
            opt_view(r) == match prompt_target {
                Some(t) => match t.system_prompt {
                    Some(s) => Some(s@),
                    None => opt_view(*self.system_prompt),
                },
                None => opt_view(*self.system_prompt),
            },
    {
        match prompt_target {
            Some(t) => match &t.system_prompt {
                Some(s) => Some(s.clone()),
                None => self.global_system_prompt(),
            },
            None => self.global_system_prompt(),
        }
    }

    fn global_system_prompt(&self) -> (r: Option<String>)
        ensures
            opt_view(r) == opt_view(*self.system_prompt),
    {
        match &*self.system_prompt {
            Some(s) => Some(s.clone()),
            None => None,
        }
    }

    /// The conversation messages of `messages`, in order: tool results,
    /// messages without content and messages carrying tool calls are dropped.
    pub fn filter_out_arch_messages(&self, messages: Vec<Message>) -> (r: Vec<Message>)
        ensures
            r@ == filter_history(messages@),
    {
        let ghost orig = messages@;
        assert(orig.len() == messages.len());
        let mut rest = messages;
        let mut out: Vec<Message> = Vec::new();
        let mut k: usize = 0;
        assert(orig.take(0) =~= Seq::<Message>::empty());
        while rest.len() > 0
            invariant
                k <= orig.len(),
                rest@ == orig.skip(k as int),
                orig.len() == k + rest@.len(),
                orig.len() <= usize::MAX,
                out@ == filter_history(orig.take(k as int)),
            decreases rest@.len(),
        {
            let m = rest.remove(0);
            assert(orig.take(k + 1).drop_last() =~= orig.take(k as int));
            assert(m == orig[k as int]);
            assert(rest@ =~= orig.skip(k + 1));
            let tool = "tool";
            proof {
                reveal_strlit("tool");
            }
            let drop = text_eq(m.role.as_str(), tool) || m.content.is_none() || match &m.tool_calls {
                Some(calls) => calls.len() > 0,
                None => false,
            };
            if !drop {
                out.push(m);
            }
            k = k + 1;
        }
        assert(orig.take(k as int) =~= orig);
        out
    }

    /// The index of the first prompt target named `name`.
    fn find_target(&self, name: &str) -> (r: Option<usize>)
        ensures
            match r {
                Some(i) => target_index(self.prompt_targets@, name@) == Some(i as int) && i
                    < self.prompt_targets@.len(),
                None => target_index(self.prompt_targets@, name@) is None,
            },
    {
        let ts: &Vec<PromptTarget> = &*self.prompt_targets;
        let mut i: usize = 0;
        assert(ts@.take(0) =~= Seq::<PromptTarget>::empty());
        while i < ts.len()
            invariant
                *ts == *self.prompt_targets,
                i <= ts@.len(),
                target_index(ts@.take(i as int), name@) is None,
            decreases ts@.len() - i,
        {
            assert(ts@.take(i + 1).drop_last() =~= ts@.take(i as int));
            if text_eq(ts[i].name.as_str(), name) {
                proof {
                    lemma_target_index_prefix(ts@, i + 1, name@);
                }
                return Some(i);
            }
            i = i + 1;
        }
        assert(ts@.take(i as int) =~= ts@);
        None
    }

    /// The index of the first prompt target marked as the default.
    fn find_default_target(&self) -> (r: Option<usize>)
        ensures
            match r {
                Some(i) => default_index(self.prompt_targets@) == Some(i as int) && i
                    < self.prompt_targets@.len(),
                None => default_index(self.prompt_targets@) is None,
            },
    {
        let ts: &Vec<PromptTarget> = &*self.prompt_targets;
        let mut i: usize = 0;
        assert(ts@.take(0) =~= Seq::<PromptTarget>::empty());
        while i < ts.len()
            invariant
                *ts == *self.prompt_targets,
                i <= ts@.len(),
                default_index(ts@.take(i as int)) is None,
            decreases ts@.len() - i,
        {
            assert(ts@.take(i + 1).drop_last() =~= ts@.take(i as int));
            if ts[i].default == Some(true) {
                proof {
                    lemma_default_index_prefix(ts@, i + 1);
                }
                return Some(i);
            }
            i = i + 1;
        }
        assert(ts@.take(i as int) =~= ts@);
        None
    }

    /// What the reply of a developer endpoint leads to (see
    /// `api_call_response_handler`); `after` is the state left behind.
    pub open spec fn api_call_reply(
        &self,
        after: StreamContext,
        status: Option<String>,
        body: String,
        callout_context: StreamCallContext,
        now_ns: u64,
        r: Action,
    ) -> bool {
                let ts = self.prompt_targets@;
                let ti = match callout_context.prompt_target_name {
                    Some(n) => target_index(ts, n@),
                    None => None,
                };
                let st = match status {
                    Some(s) => s@,
                    None => "200"@,
                };
                let sys = self.system_prompt_for(callout_context.prompt_target_name);
                let req = callout_context.request_body;
                if ti is None {
                    is_reply(r, 500)
                } else if !success_status(status) {
                    is_text_reply(
                        r,
                        match status_code_of(st) {
                            Some(c) => c,
                            None => 500,
                        },
                        upstream_text(
                            opt_text(callout_context.upstream_cluster),
                            opt_text(callout_context.upstream_cluster_path),
                            st,
                            body@,
                        ),
                    )
                } else if !auto_dispatch(ts[ti->Some_0]) {
                    is_direct_reply(r, self.streaming_response, Some(body@), ARCH_FC_MODEL_NAME@, body@)
                } else if sys is None && filter_history(req.messages@).len() == 0 {
                    is_reply(r, 500)
                } else {
                    &&& resumes_like(r, req)
                    &&& exists|l: Seq<Message>| #[trigger]
                        is_llm_messages(l, sys, req.messages@) && with_context(
                            r->request.messages@,
                            l,
                            body@,
                        )
                    &&& opt_view(after.tool_call_response) == Some(body@)
                    &&& after.start_upstream_llm_request_time == now_ns
                }
            }

    /// What the reply of the default target leads to (see
    /// `default_target_handler`).
    pub open spec fn default_target_reply(
        &self,
        body: String,
        response: Result<ChatCompletionsResponse, String>,
        callout_context: StreamCallContext,
        r: Action,
    ) -> bool {
        &&& self.target_of(callout_context.prompt_target_name) is None ==> is_reply(r, 500)
        &&& ({
                    let ti = self.target_of(callout_context.prompt_target_name)->Some_0;
                    self.target_of(callout_context.prompt_target_name) is Some && !auto_dispatch(
                        self.prompt_targets@[ti],
                    ) ==> if !self.streaming_response {
                        is_text_reply(r, 200, body@)
                    } else {
                        match response {
                            Err(e) => is_text_reply(r, 500, "error deserializing: "@ + e@),
                            Ok(resp) => is_direct_reply(r, true, first_content(resp), resp.model@, body@),
                        }
                    }
                })
        &&& ({
                    let ti = self.target_of(callout_context.prompt_target_name)->Some_0;
                    let sys = opt_view(self.prompt_targets@[ti].system_prompt);
                    let h = callout_context.request_body.messages@;
                    self.target_of(callout_context.prompt_target_name) is Some && auto_dispatch(
                        self.prompt_targets@[ti],
                    ) ==> match response {
                        Err(e) => is_text_reply(r, 500, "error deserializing: "@ + e@),
                        Ok(resp) => if first_content(resp) is None || (sys is None && filter_history(h).len() == 0) {
                            is_reply(r, 500)
                        } else {
                            &&& resumes_like(r, callout_context.request_body)
                            &&& exists|l: Seq<Message>| #[trigger]
                                is_llm_messages(l, sys, h) && with_context(
                                    r->request.messages@,
                                    l,
                                    first_content(resp)->Some_0,
                                )
                        },
                    }
                })
    }

    /// The call to the developer endpoint of the target that the first tool
    /// call names (see `schedule_api_call_request`).
    pub open spec fn api_call_dispatch(
        &self,
        prompt_target_name: Option<String>,
        user_message: Option<String>,
        request_body: ChatCompletionsRequest,
        r: Action,
    ) -> bool {
                let tc = self.tool_calls->Some_0@[0];
                let ti = target_index(self.prompt_targets@, tc.function.name@);
                let t = self.prompt_targets@[ti->Some_0];
                let ep = t.endpoint->Some_0;
                let method = match ep.method {
                    Some(m) => m,
                    None => HttpMethod::Get,
                };
                let tmpl = match ep.path {
                    Some(p) => p@,
                    None => "/"@,
                };
                let params = match t.parameters {
                    Some(ps) => ps@,
                    None => Seq::empty(),
                };
                if ti is None || t.endpoint is None {
                    is_reply(r, 500)
                } else {
                    match path_body_of(tmpl, tool_args_view(tc.function.arguments), params_view(params), method) {
                        Err(m) => is_text_reply(r, 400, "error computing api request path or body: "@ + m),
                        Ok(pb) => r matches Action::Dispatch { call, context } && {
                            &&& call.upstream@ == ARCH_INTERNAL_CLUSTER_NAME@
                            &&& call.path@ == pb.0
                            &&& match call.body {
                                Some(CallBody::Text(b)) => pb.1 == Some(b@),
                                Some(CallBody::Messages(_)) => false,
                                Some(CallBody::ContextMessages) => false,
                                Some(CallBody::ContextRequest) => false,
                                None => pb.1 is None,
                            }
                            &&& pairs_view(call.headers@) == api_call_headers(
                                ep.name@,
                                if method == HttpMethod::Get { "GET"@ } else { "POST"@ },
                                pb.0,
                                opt_view(self.request_id),
                                opt_view(self.traceparent),
                                match ep.http_headers {
                                    Some(hs) => pairs_view(hs@),
                                    None => Seq::empty(),
                                },
                            )
                            &&& call.timeout_ms == CALLOUT_TIMEOUT_MS
                            &&& context.response_handler_type == ResponseHandlerType::FunctionCall
                            &&& opt_view(context.upstream_cluster) == Some(ep.name@)
                            &&& opt_view(context.upstream_cluster_path) == Some(pb.0)
                            &&& context.prompt_target_name == prompt_target_name
                            &&& context.user_message == user_message
                            &&& context.request_body == request_body
                        },
                    }
                }
            }

    /// What the reply of the function-calling model leads to (see
    /// `arch_fc_response_handler`); `after` is the state left behind.
    pub open spec fn arch_fc_reply(
        &self,
        after: StreamContext,
        body: String,
        response: Result<ChatCompletionsResponse, String>,
        callout_context: StreamCallContext,
        r: Action,
    ) -> bool {
        let req = callout_context.request_body;
        match response {
            Err(e) => is_text_reply(r, 500, "error deserializing: "@ + e@),
            Ok(resp) => if !intent_matched(resp) {
                match default_index(self.prompt_targets@) {
                    Some(di) => {
                        let t = self.prompt_targets@[di];
                        match t.endpoint {
                            None => is_reply(r, 500),
                            Some(ep) => {
                                let path = match ep.path {
                                    Some(p) => p@,
                                    None => "/"@,
                                };
                                r matches Action::Dispatch { call, context } && {
                                    &&& call.upstream@ == ARCH_INTERNAL_CLUSTER_NAME@
                                    &&& call.path@ == path
                                    &&& call.body matches Some(CallBody::ContextMessages)
                                    &&& pairs_view(call.headers@) == default_call_headers(
                                        ep.name@,
                                        path,
                                        opt_view(self.request_id),
                                    )
                                    &&& call.timeout_ms == CALLOUT_TIMEOUT_MS
                                    &&& context.response_handler_type == ResponseHandlerType::DefaultTarget
                                    &&& opt_view(context.prompt_target_name) == Some(t.name@)
                                    &&& context.request_body == req
                                    &&& context.user_message == callout_context.user_message
                                }
                            },
                        }
                    },
                    None => resumes_like(r, req) && is_llm_messages(
                        r->request.messages@,
                        opt_view(*self.system_prompt),
                        req.messages@,
                    ),
                }
            } else {
                let calls = first_tool_calls(resp);
                if calls is None || calls->Some_0@.len() == 0 {
                    &&& is_direct_reply(
                        r,
                        self.streaming_response,
                        first_content(resp),
                        ARCH_FC_MODEL_NAME@,
                        body@,
                    )
                    &&& after.tool_calls is None
                } else {
                    let name = calls->Some_0@[0].function.name;
                    &&& after.tool_calls == calls
                    &&& if orchestrator_on(*self.overrides) {
                        r matches Action::Resume { request } && {
                            &&& request.model == req.model
                            &&& request.stream == req.stream
                            &&& request.stream_options == req.stream_options
                            &&& request.tools is None
                            &&& request.metadata is Some
                            &&& pairs_view(request.metadata->Some_0@) == orchestrator_metadata(
                                name@,
                                optimize_on(*self.overrides),
                            )
                            &&& is_llm_messages(request.messages@, self.system_prompt_for(Some(name)), req.messages@)
                        }
                    } else {
                        after.api_call_dispatch(Some(name), callout_context.user_message, req, r)
                    }
                }
            },
        }
    }

    /// The index of the prompt target that a pending callout names.
    pub open spec fn target_of(&self, name: Option<String>) -> Option<int> {
        match name {
            Some(n) => target_index(self.prompt_targets@, n@),
            None => None,
        }
    }

    /// The system prompt that goes with the named target, if any.
    pub open spec fn system_prompt_for(&self, name: Option<String>) -> Option<Seq<char>> {
        match name {
            Some(n) => match target_index(self.prompt_targets@, n@) {
                Some(i) => match self.prompt_targets@[i].system_prompt {
                    Some(s) => Some(s@),
                    None => opt_view(*self.system_prompt),
                },
                None => opt_view(*self.system_prompt),
            },
            None => opt_view(*self.system_prompt),
        }
    }

    /// The messages for the LLM: the system prompt of the named target (or
    /// the global one), then the conversation messages of the history.
    pub fn construct_llm_messages(&self, prompt_target_name: &Option<String>, history: Vec<Message>) -> (r: Vec<Message>)
        ensures
            is_llm_messages(r@, self.system_prompt_for(*prompt_target_name), history@),
    {
        let system_prompt = match prompt_target_name {
            None => self.global_system_prompt(),
            Some(name) => match self.find_target(name.as_str()) {
                Some(i) => self.get_system_prompt(Some(&self.prompt_targets[i])),
                None => self.get_system_prompt(None),
            },
        };
        let mut messages: Vec<Message> = Vec::new();
        let mut filtered = self.filter_out_arch_messages(history);
        match system_prompt {
            Some(s) => {
                messages.push(plain_message("system", s));
                messages.append(&mut filtered);
                assert(messages@.skip(1) =~= filter_history(history@));
            },
            None => {
                messages.append(&mut filtered);
                assert(messages@ =~= filter_history(history@));
            },
        }
        messages
    }
}

impl StreamContext {
    /// Handles the reply of a developer endpoint: a status that is not 2xx
    /// is echoed with the upstream error; else the reply goes to the client
    /// directly, or, with auto-dispatch on, is appended as context to the last
    /// message of the conversation and the request resumes towards the LLM.
    pub fn api_call_response_handler(
        &mut self,
        status: Option<String>,
        body: String,
        callout_context: StreamCallContext,
        now_ns: u64,
    ) -> (r: Action)
        ensures
            final(self).prompt_targets == old(self).prompt_targets,
            final(self).system_prompt == old(self).system_prompt,
            final(self).streaming_response == old(self).streaming_response,
            final(self).callouts == old(self).callouts,
            old(self).api_call_reply(*final(self), status, body, callout_context, now_ns, r),
    {
        let ti = match &callout_context.prompt_target_name {
            Some(n) => self.find_target(n.as_str()),
            None => None,
        };
        let ti = match ti {
            Some(i) => i,
            None => {
                let e = ServerError::LogicError(String::from_str("prompt target not found"));
                return Action::SendResponse { status: 500, body: ReplyBody::Text(e.to_text()) };
            },
        };
        let code = match &status {
            Some(s) => parse_status(s.as_str()),
            None => Some(200),
        };
        let success = match code {
            Some(c) => 200 <= c && c < 300,
            None => false,
        };
        if !success {
            let http_status = match status {
                Some(s) => s,
                None => String::new(),
            };
            let e = ServerError::Upstream {
                host: match callout_context.upstream_cluster {
                    Some(h) => h,
                    None => String::new(),
                },
                path: match callout_context.upstream_cluster_path {
                    Some(p) => p,
                    None => String::new(),
                },
                status: http_status,
                body,
            };
            return Action::SendResponse {
                status: match code {
                    Some(c) => c,
                    None => 500,
                },
                body: ReplyBody::Text(e.to_text()),
            };
        }
        self.tool_call_response = Some(body.clone());
        let StreamCallContext { prompt_target_name, request_body, .. } = callout_context;
        let ChatCompletionsRequest { model, messages, stream, stream_options, .. } = request_body;
        let ghost h = messages@;
        let auto = match self.prompt_targets[ti].auto_llm_dispatch_on_response {
            Some(b) => b,
            None => true,
        };
        if !auto {
            if self.streaming_response {
                return Action::SendResponse {
                    status: 200,
                    body: ReplyBody::Events(direct_events(Some(body), ARCH_FC_MODEL_NAME)),
                };
            } else {
                return Action::SendResponse { status: 200, body: ReplyBody::Text(body) };
            }
        }
        let llm_messages = self.construct_llm_messages(&prompt_target_name, messages);
        if llm_messages.len() == 0 {
            let e = ServerError::NoMessagesFound { why: String::from_str("no user messages found") };
            return Action::SendResponse { status: 500, body: ReplyBody::Text(e.to_text()) };
        }
        let ghost l = llm_messages@;
        let messages = match append_context(llm_messages, body.as_str()) {
            Some(m) => m,
            None => {
                return Action::SendResponse { status: 500, body: ReplyBody::Text(String::new()) };
            },
        };
        assert(is_llm_messages(l, self.system_prompt_for(prompt_target_name), h));
        self.start_upstream_llm_request_time = now_ns;
        Action::Resume {
            request: ChatCompletionsRequest {
                model,
                messages,
                tools: None,
                stream,
                stream_options,
                metadata: None,
            },
        }
    }
}

impl StreamContext {
    /// Handles the reply of the default target: without auto-dispatch it goes
    /// to the client (as two events on a streamed request); with it, the
    /// content of its first choice is appended as context to the last of the
    /// target's system prompt and the conversation messages of the history,
    /// and the request resumes towards the LLM.
    pub fn default_target_handler(
        &self,
        body: String,
        response: Result<ChatCompletionsResponse, String>,
        callout_context: StreamCallContext,
    ) -> (r: Action)
        ensures
            self.default_target_reply(body, response, callout_context, r),
    {
        let ti = match &callout_context.prompt_target_name {
            Some(n) => self.find_target(n.as_str()),
            None => None,
        };
        let ti = match ti {
            Some(i) => i,
            None => {
                let e = ServerError::LogicError(String::from_str("prompt target not found"));
                return Action::SendResponse { status: 500, body: ReplyBody::Text(e.to_text()) };
            },
        };
        let target = &self.prompt_targets[ti];
        let auto = match target.auto_llm_dispatch_on_response {
            Some(b) => b,
            None => true,
        };
        if !auto {
            if !self.streaming_response {
                return Action::SendResponse { status: 200, body: ReplyBody::Text(body) };
            }
            return match response {
                Err(e) => {
                    let e = ServerError::Deserialization(e);
                    Action::SendResponse { status: 500, body: ReplyBody::Text(e.to_text()) }
                },
                Ok(resp) => {
                    let content = first_choice_content(&resp);
                    Action::SendResponse {
                        status: 200,
                        body: ReplyBody::Events(direct_events(content, resp.model.as_str())),
                    }
                },
            };
        }
        let resp = match response {
            Err(e) => {
                let e = ServerError::Deserialization(e);
                return Action::SendResponse { status: 500, body: ReplyBody::Text(e.to_text()) };
            },
            Ok(resp) => resp,
        };
        let api_resp = match first_choice_content(&resp) {
            Some(c) => c,
            None => {
                let e = ServerError::LogicError(String::from_str("default target reply has no content"));
                return Action::SendResponse { status: 500, body: ReplyBody::Text(e.to_text()) };
            },
        };
        let StreamCallContext { request_body, .. } = callout_context;
        let ChatCompletionsRequest { model, messages, stream, stream_options, .. } = request_body;
        let ghost h = messages@;
        let mut history = self.filter_out_arch_messages(messages);
        let mut all: Vec<Message> = Vec::new();
        match &target.system_prompt {
            Some(sp) => all.push(plain_message("system", sp.clone())),
            None => {},
        }
        all.append(&mut history);
        let ghost l = all@;
        proof {
            if target.system_prompt is Some {
                assert(l.skip(1) =~= filter_history(h));
            } else {
                assert(l =~= filter_history(h));
            }
        }
        let messages = match append_context(all, api_resp.as_str()) {
            Some(m) => m,
            None => {
                let e = ServerError::NoMessagesFound { why: String::from_str("no user messages found") };
                return Action::SendResponse { status: 500, body: ReplyBody::Text(e.to_text()) };
            },
        };
        assert(is_llm_messages(l, opt_view(target.system_prompt), h));
        let r = Action::Resume {
            request: ChatCompletionsRequest {
                model,
                messages,
                tools: None,
                stream,
                stream_options,
                metadata: None,
            },
        };
        r
    }
}

impl StreamContext {
    /// Builds the call to the developer endpoint of the prompt target that
    /// the first tool call names, from that call's arguments.
    pub fn schedule_api_call_request(&self, callout_context: StreamCallContext) -> (r: Action)
        requires
            self.tool_calls is Some,
            self.tool_calls->Some_0@.len() > 0,
        ensures
            self.api_call_dispatch(
                callout_context.prompt_target_name,
                callout_context.user_message,
                callout_context.request_body,
                r,
            ),
    {
        let calls = match &self.tool_calls {
            Some(c) => c,
            None => {
                return Action::Ignore;
            },
        };
        let tc = &calls[0];
        let ti = match self.find_target(tc.function.name.as_str()) {
            Some(i) => i,
            None => {
                let e = ServerError::LogicError(String::from_str("prompt target not found"));
                return Action::SendResponse { status: 500, body: ReplyBody::Text(e.to_text()) };
            },
        };
        let target = &self.prompt_targets[ti];
        let ep = match &target.endpoint {
            Some(e) => e,
            None => {
                let e = ServerError::LogicError(String::from_str("prompt target has no endpoint"));
                return Action::SendResponse { status: 500, body: ReplyBody::Text(e.to_text()) };
            },
        };
        let tmpl = match &ep.path {
            Some(p) => p.clone(),
            None => String::from_str("/"),
        };
        let method = match ep.method {
            Some(m) => m,
            None => HttpMethod::Get,
        };
        let no_params: Vec<Parameter> = Vec::new();
        let params: &Vec<Parameter> = match &target.parameters {
            Some(ps) => ps,
            None => &no_params,
        };
        let (path, body) = match compute_request_path_body(
            tmpl.as_str(),
            &tc.function.arguments,
            params.as_slice(),
            &method,
        ) {
            Ok(pb) => pb,
            Err(e) => {
                let mut why = String::from_str("error computing api request path or body: ");
                why.append(e.as_str());
                let e = ServerError::BadRequest { why };
                return Action::SendResponse { status: 400, body: ReplyBody::Text(e.to_text()) };
            },
        };
        let mut headers: Vec<(String, String)> = Vec::new();
        headers.push((String::from_str(ARCH_UPSTREAM_HOST_HEADER), ep.name.clone()));
        headers.push((String::from_str(":method"), String::from_str(method.as_str())));
        headers.push((String::from_str(":path"), path.clone()));
        headers.push((String::from_str(":authority"), ep.name.clone()));
        headers.push((String::from_str("content-type"), String::from_str("application/json")));
        headers.push((String::from_str("x-envoy-max-retries"), String::from_str("3")));
        headers.push((String::from_str("x-envoy-upstream-rq-timeout-ms"), String::from_str("30000")));
        let ghost method_text = if method == HttpMethod::Get { "GET"@ } else { "POST"@ };
        let ghost base = seq![
            ("x-arch-upstream"@, ep.name@),
            (":method"@, method_text),
            (":path"@, path@),
            (":authority"@, ep.name@),
            ("content-type"@, "application/json"@),
            ("x-envoy-max-retries"@, "3"@),
            ("x-envoy-upstream-rq-timeout-ms"@, "30000"@),
        ];
        assert(pairs_view(headers@) =~= base);
        match &self.request_id {
            Some(id) => put_pair(&mut headers, String::from_str(REQUEST_ID_HEADER), id.clone()),
            None => {},
        }
        match &self.traceparent {
            Some(tp) => put_pair(&mut headers, String::from_str(TRACE_PARENT_HEADER), tp.clone()),
            None => {},
        }
        let ghost h2 = pairs_view(headers@);
        let no_headers: Vec<(String, String)> = Vec::new();
        let statics: &Vec<(String, String)> = match &ep.http_headers {
            Some(hs) => hs,
            None => &no_headers,
        };
        let ghost sv = pairs_view(statics@);
        let mut i: usize = 0;
        assert(sv.take(0) =~= Seq::<(Seq<char>, Seq<char>)>::empty());
        while i < statics.len()
            invariant
                i <= statics@.len(),
                sv == pairs_view(statics@),
                pairs_view(headers@) == put_all(h2, sv.take(i as int)),
            decreases statics@.len() - i,
        {
            assert(sv.take(i + 1).drop_last() =~= sv.take(i as int));
            put_pair(&mut headers, statics[i].0.clone(), statics[i].1.clone());
            i = i + 1;
        }
        assert(sv.take(i as int) =~= sv);
        let call_body = match body {
            Some(b) => Some(CallBody::Text(b)),
            None => None,
        };
        let StreamCallContext { user_message, prompt_target_name, request_body, .. } = callout_context;
        let context = StreamCallContext {
            response_handler_type: ResponseHandlerType::FunctionCall,
            user_message,
            prompt_target_name,
            request_body,
            upstream_cluster: Some(ep.name.clone()),
            upstream_cluster_path: Some(path.clone()),
        };
        let call = CallArgs {
            upstream: String::from_str(ARCH_INTERNAL_CLUSTER_NAME),
            path,
            headers,
            body: call_body,
            timeout_ms: CALLOUT_TIMEOUT_MS,
        };
        Action::Dispatch { call, context }
    }
}

impl StreamContext {
    /// Handles the reply of the function-calling model. Without a matched
    /// intent the request goes to the default target, or, without one, on to
    /// the LLM with the conversation only. With a matched intent and no tool
    /// call the model's message goes back to the client; with tool calls the
    /// first one names the prompt target, whose endpoint is then called (or the
    /// turn is handed to the agent orchestrator).
    pub fn arch_fc_response_handler(
        &mut self,
        body: String,
        response: Result<ChatCompletionsResponse, String>,
        callout_context: StreamCallContext,
    ) -> (r: Action)
        ensures
            final(self).prompt_targets == old(self).prompt_targets,
            final(self).system_prompt == old(self).system_prompt,
            final(self).overrides == old(self).overrides,
            final(self).request_id == old(self).request_id,
            final(self).traceparent == old(self).traceparent,
            final(self).streaming_response == old(self).streaming_response,
            final(self).callouts == old(self).callouts,
            old(self).arch_fc_reply(*final(self), body, response, callout_context, r),
    {
        let resp = match response {
            Err(e) => {
                let e = ServerError::Deserialization(e);
                return Action::SendResponse { status: 500, body: ReplyBody::Text(e.to_text()) };
            },
            Ok(resp) => resp,
        };
        let matched = match &resp.metadata {
            Some(m) => has_text_key(m, "function_latency"),
            None => false,
        };
        if !matched {
            return match self.find_default_target() {
                Some(di) => {
                    let t = &self.prompt_targets[di];
                    match &t.endpoint {
                        None => {
                            let e = ServerError::LogicError(String::from_str("default prompt target has no endpoint"));
                            Action::SendResponse { status: 500, body: ReplyBody::Text(e.to_text()) }
                        },
                        Some(ep) => {
                            let path = match &ep.path {
                                Some(p) => p.clone(),
                                None => String::from_str("/"),
                            };
                            let mut headers: Vec<(String, String)> = Vec::new();
                            headers.push((String::from_str(":method"), String::from_str("POST")));
                            headers.push((String::from_str(ARCH_UPSTREAM_HOST_HEADER), ep.name.clone()));
                            headers.push((String::from_str(":path"), path.clone()));
                            headers.push((String::from_str(":authority"), ep.name.clone()));
                            headers.push((String::from_str("content-type"), String::from_str("application/json")));
                            headers.push((String::from_str("x-envoy-max-retries"), String::from_str("3")));
                            headers.push((String::from_str("x-envoy-upstream-rq-timeout-ms"), String::from_str("30000")));
                            match &self.request_id {
                                Some(id) => headers.push((String::from_str(REQUEST_ID_HEADER), id.clone())),
                                None => {},
                            }
                            assert(pairs_view(headers@) =~= default_call_headers(ep.name@, path@, opt_view(self.request_id)));
                            let StreamCallContext { user_message, request_body, .. } = callout_context;
                            let context = StreamCallContext {
                                response_handler_type: ResponseHandlerType::DefaultTarget,
                                user_message,
                                prompt_target_name: Some(t.name.clone()),
                                request_body,
                                upstream_cluster: None,
                                upstream_cluster_path: None,
                            };
                            let call = CallArgs {
                                upstream: String::from_str(ARCH_INTERNAL_CLUSTER_NAME),
                                path,
                                headers,
                                body: Some(CallBody::ContextMessages),
                                timeout_ms: CALLOUT_TIMEOUT_MS,
                            };
                            Action::Dispatch { call, context }
                        },
                    }
                },
                None => {
                    let StreamCallContext { request_body, .. } = callout_context;
                    let ChatCompletionsRequest { model, messages, stream, stream_options, .. } = request_body;
                    let no_target: Option<String> = None;
                    let messages = self.construct_llm_messages(&no_target, messages);
                    Action::Resume {
                        request: ChatCompletionsRequest {
                            model,
                            messages,
                            tools: None,
                            stream,
                            stream_options,
                            metadata: None,
                        },
                    }
                },
            };
        }
        let content = first_choice_content(&resp);
        let calls = if resp.choices.len() > 0 {
            let mut choices = resp.choices;
            let first = choices.remove(0);
            first.message.tool_calls
        } else {
            None
        };
        let has_calls = match &calls {
            Some(c) => c.len() > 0,
            None => false,
        };
        if !has_calls {
            self.tool_calls = None;
            if self.streaming_response {
                return Action::SendResponse {
                    status: 200,
                    body: ReplyBody::Events(direct_events(content, ARCH_FC_MODEL_NAME)),
                };
            } else {
                return Action::SendResponse { status: 200, body: ReplyBody::Text(body) };
            }
        }
        self.tool_calls = calls;
        let name = match &self.tool_calls {
            Some(c) => c[0].function.name.clone(),
            None => String::new(),
        };
        let orchestrator = match &*self.overrides {
            Some(o) => o.use_agent_orchestrator == Some(true),
            None => false,
        };
        let StreamCallContext { user_message, request_body, .. } = callout_context;
        if orchestrator {
            let optimize = match &*self.overrides {
                Some(o) => o.optimize_context_window == Some(true),
                None => false,
            };
            let mut metadata: Vec<(String, String)> = Vec::new();
            metadata.push((String::from_str("use_agent_orchestrator"), String::from_str("true")));
            metadata.push((String::from_str("agent-name"), name.clone()));
            if optimize {
                metadata.push((String::from_str("optimize_context_window"), String::from_str("true")));
            }
            assert(pairs_view(metadata@) =~= orchestrator_metadata(name@, optimize));
            let ChatCompletionsRequest { model, messages, stream, stream_options, .. } = request_body;
            let target_name = Some(name);
            let messages = self.construct_llm_messages(&target_name, messages);
            return Action::Resume {
                request: ChatCompletionsRequest {
                    model,
                    messages,
                    tools: None,
                    stream,
                    stream_options,
                    metadata: Some(metadata),
                },
            };
        }
        let context = StreamCallContext {
            response_handler_type: ResponseHandlerType::ArchFC,
            user_message,
            prompt_target_name: Some(name),
            request_body,
            upstream_cluster: None,
            upstream_cluster_path: None,
        };
        self.schedule_api_call_request(context)
    }
}

/// Whether some pair of `m` has key `k`, found by a scan.
fn has_text_key(m: &Vec<(String, String)>, k: &str) -> (r: bool)
    ensures
        r == has_key(pairs_view(m@), k@),
{
    let ghost pv = pairs_view(m@);
    let mut i: usize = 0;
    while i < m.len()
        invariant
            i <= m@.len(),
            pv == pairs_view(m@),
            forall|j: int| 0 <= j < i ==> pv[j].0 != k@,
        decreases m@.len() - i,
    {
        if text_eq(m[i].0.as_str(), k) {
            assert(pv[i as int].0 == k@);
            return true;
        }
        i = i + 1;
    }
    false
}

impl StreamContext {
    /// The index of the first pending callout with token `token_id`.
    fn find_callout(&self, token_id: u32) -> (r: Option<usize>)
        ensures
            match r {
                Some(i) => is_first_token(self.callouts@, token_id, i as int),
                None => !has_token(self.callouts@, token_id),
            },
    {
        let mut i: usize = 0;
        while i < self.callouts.len()
            invariant
                i <= self.callouts@.len(),
                forall|j: int| 0 <= j < i ==> self.callouts@[j].0 != token_id,
            decreases self.callouts@.len() - i,
        {
            if self.callouts[i].0 == token_id {
                return Some(i);
            }
            i = i + 1;
        }
        None
    }

    /// Records a pending callout under its token.
    pub fn add_callout(&mut self, token_id: u32, context: StreamCallContext)
        ensures
            final(self).callouts@ == old(self).callouts@.push((token_id, context)),
            final(self).prompt_targets == old(self).prompt_targets,
            final(self).system_prompt == old(self).system_prompt,
            final(self).overrides == old(self).overrides,
            final(self).tool_calls == old(self).tool_calls,
            final(self).streaming_response == old(self).streaming_response,
            final(self).request_id == old(self).request_id,
            final(self).traceparent == old(self).traceparent,
    {
        self.callouts.push((token_id, context));
    }

    /// Handles the reply to the callout with token `token_id`: its context
    /// is taken out; a status that is not a number, or not 2xx, ends the
    /// request with an error; else the reply goes to the handler that the
    /// context names.
    pub fn on_http_call_response(
        &mut self,
        token_id: u32,
        status: Option<String>,
        body: String,
        response: Result<ChatCompletionsResponse, String>,
        now_ns: u64,
    ) -> (r: Action)
        ensures
            !has_token(old(self).callouts@, token_id) ==> r is Ignore && *final(self) == *old(self),
            has_token(old(self).callouts@, token_id) ==> ({
                let i = choose|i: int| is_first_token(old(self).callouts@, token_id, i);
                let ctx = old(self).callouts@[i].1;
                let code = match status {
                    Some(s) => status_code_of(s@),
                    None => None,
                };
                &&& final(self).callouts@ == old(self).callouts@.remove(i)
                &&& if status is Some && code is None {
                    is_text_reply(r, 500, "invalid status code: "@ + status->Some_0@)
                } else if code is Some && !(200 <= code->Some_0 < 300) {
                    is_text_reply(
                        r,
                        code->Some_0,
                        upstream_text(
                            opt_text(ctx.upstream_cluster),
                            opt_text(ctx.upstream_cluster_path),
                            status->Some_0@,
                            body@,
                        ),
                    )
                } else {
                    match ctx.response_handler_type {
                        ResponseHandlerType::ArchFC => old(self).arch_fc_reply(*final(self), body, response, ctx, r),
                        ResponseHandlerType::FunctionCall => old(self).api_call_reply(
                            *final(self),
                            status,
                            body,
                            ctx,
                            now_ns,
                            r,
                        ),
                        ResponseHandlerType::DefaultTarget => old(self).default_target_reply(body, response, ctx, r),
                    }
                }
            }),
    {
        let i = match self.find_callout(token_id) {
            Some(i) => i,
            None => {
                return Action::Ignore;
            },
        };
        assert(is_first_token(self.callouts@, token_id, i as int));
        proof {
            let k = choose|k: int| is_first_token(self.callouts@, token_id, k);
            assert(k == i);
        }
        let (_, ctx) = self.callouts.remove(i);
        match &status {
            Some(s) => match parse_status(s.as_str()) {
                Some(code) => {
                    if code < 200 || code >= 300 {
                        let e = ServerError::Upstream {
                            host: match ctx.upstream_cluster {
                                Some(h) => h,
                                None => String::new(),
                            },
                            path: match ctx.upstream_cluster_path {
                                Some(p) => p,
                                None => String::new(),
                            },
                            status: s.clone(),
                            body,
                        };
                        return Action::SendResponse { status: code, body: ReplyBody::Text(e.to_text()) };
                    }
                },
                None => {
                    let mut m = String::from_str("invalid status code: ");
                    m.append(s.as_str());
                    let e = ServerError::LogicError(m);
                    return Action::SendResponse { status: 500, body: ReplyBody::Text(e.to_text()) };
                },
            },
            None => {},
        }
        match ctx.response_handler_type {
            ResponseHandlerType::ArchFC => self.arch_fc_response_handler(body, response, ctx),
            ResponseHandlerType::FunctionCall => self.api_call_response_handler(status, body, ctx, now_ns),
            ResponseHandlerType::DefaultTarget => self.default_target_handler(body, response, ctx),
        }
    }

    /// The assistant message that carries the resolved tool calls.
    pub fn generate_toll_call_message(&mut self) -> (r: Message)
        ensures
            *final(self) == *old(self),
            r.role@ == "assistant"@,
            r.content is None,
            opt_view(r.model) == Some(ARCH_FC_MODEL_NAME@),
            r.tool_call_id is None,
            match old(self).tool_calls {
                Some(v) => r.tool_calls is Some && tool_calls_view(r.tool_calls->Some_0@) == tool_calls_view(v@),
                None => r.tool_calls is None,
            },
    {
        let tool_calls = match &self.tool_calls {
            Some(v) => Some(copy_tool_calls(v)),
            None => None,
        };
        Message {
            role: String::from_str("assistant"),
            content: None,
            model: Some(String::from_str(ARCH_FC_MODEL_NAME)),
            tool_calls,
            tool_call_id: None,
        }
    }

    /// The tool message that carries the endpoint's reply to the first tool call.
    pub fn generate_api_response_message(&mut self) -> (r: Message)
        requires
            old(self).tool_calls is Some,
            old(self).tool_calls->Some_0@.len() > 0,
        ensures
            *final(self) == *old(self),
            r.role@ == "tool"@,
            opt_view(r.content) == opt_view(old(self).tool_call_response),
            r.model is None,
            r.tool_calls is None,
            opt_view(r.tool_call_id) == Some(old(self).tool_calls->Some_0@[0].id@),
    {
        let id = match &self.tool_calls {
            Some(v) => v[0].id.clone(),
            None => String::new(),
        };
        let content = match &self.tool_call_response {
            Some(c) => Some(c.clone()),
            None => None,
        };
        Message {
            role: String::from_str("tool"),
            content,
            model: None,
            tool_calls: None,
            tool_call_id: Some(id),
        }
    }
}

impl StreamContext {
    /// Keeps what the request headers say: whether this is a chat request,
    /// its request id and trace parent.
    pub fn on_http_request_headers(&mut self, headers: &Vec<(String, String)>)
        ensures
            final(self).is_chat_completions_request == (lookup(pairs_view(headers@), ":path"@) == Some(
                CHAT_COMPLETIONS_PATH@,
            )),
            opt_view(final(self).request_id) == lookup(pairs_view(headers@), REQUEST_ID_HEADER@),
            opt_view(final(self).traceparent) == lookup(pairs_view(headers@), TRACE_PARENT_HEADER@),
            final(self).callouts == old(self).callouts,
            final(self).prompt_targets == old(self).prompt_targets,
            final(self).system_prompt == old(self).system_prompt,
            final(self).overrides == old(self).overrides,
    {
        self.is_chat_completions_request = match find_value(headers, ":path") {
            Some(p) => text_eq(p.as_str(), CHAT_COMPLETIONS_PATH),
            None => false,
        };
        self.request_id = match find_value(headers, REQUEST_ID_HEADER) {
            Some(v) => Some(v.clone()),
            None => None,
        };
        self.traceparent = match find_value(headers, TRACE_PARENT_HEADER) {
            Some(v) => Some(v.clone()),
            None => None,
        };
    }

    /// Decides on the request body, once it is whole: a chat request is
    /// held, and its history goes to the function-calling model, whose reply
    /// resumes it. `request` is the body read as a chat request, `None` where it
    /// could not be read.
    pub fn on_http_request_body(
        &mut self,
        body_size: usize,
        end_of_stream: bool,
        request: Option<Result<ChatCompletionsRequest, String>>,
    ) -> (r: (Disposition, Action))
        ensures
            final(self).callouts == old(self).callouts,
            final(self).prompt_targets == old(self).prompt_targets,
            final(self).system_prompt == old(self).system_prompt,
            final(self).overrides == old(self).overrides,
            final(self).request_id == old(self).request_id,
            !end_of_stream ==> r.0 == Disposition::Pause && r.1 is Ignore,
            end_of_stream && (body_size == 0 || !old(self).is_chat_completions_request || request is None)
                ==> r.0 == Disposition::Continue && r.1 is Ignore,
            end_of_stream && body_size > 0 && old(self).is_chat_completions_request ==> match request {
                None => true,
                Some(Err(e)) => r.0 == Disposition::Pause && is_text_reply(r.1, 400, "error deserializing: "@ + e@),
                Some(Ok(req)) => {
                    &&& r.0 == Disposition::Pause
                    &&& final(self).request_body_size == body_size
                    &&& final(self).streaming_response == req.stream
                    &&& r.1 matches Action::Dispatch { call, context } && {
                        &&& call.upstream@ == ARCH_INTERNAL_CLUSTER_NAME@
                        &&& call.path@ == FUNCTION_CALLING_PATH@
                        &&& call.body matches Some(CallBody::ContextRequest)
                        &&& pairs_view(call.headers@) == fc_call_headers(opt_view(old(self).request_id))
                        &&& call.timeout_ms == CALLOUT_TIMEOUT_MS
                        &&& context.response_handler_type == ResponseHandlerType::ArchFC
                        &&& opt_view(context.user_message) == last_user_text(req.messages@)
                        &&& context.prompt_target_name is None
                        &&& context.request_body == req
                        &&& context.upstream_cluster is None
                        &&& context.upstream_cluster_path is None
                    }
                },
            },
    {
        if !end_of_stream {
            return (Disposition::Pause, Action::Ignore);
        }
        if body_size == 0 || !self.is_chat_completions_request {
            return (Disposition::Continue, Action::Ignore);
        }
        let req = match request {
            None => {
                return (Disposition::Continue, Action::Ignore);
            },
            Some(Err(e)) => {
                let e = ServerError::Deserialization(e);
                return (Disposition::Pause, Action::SendResponse { status: 400, body: ReplyBody::Text(e.to_text()) });
            },
            Some(Ok(req)) => req,
        };
        self.request_body_size = body_size;
        self.streaming_response = req.stream;
        let mut user_message: Option<String> = None;
        let mut i: usize = 0;
        let ghost ms = req.messages@;
        assert(ms.take(0) =~= Seq::<Message>::empty());
        while i < req.messages.len()
            invariant
                i <= ms.len(),
                ms == req.messages@,
                opt_view(user_message) == last_user_text(ms.take(i as int)),
            decreases ms.len() - i,
        {
            assert(ms.take(i + 1).drop_last() =~= ms.take(i as int));
            let user = "user";
            proof {
                reveal_strlit("user");
            }
            if text_eq(req.messages[i].role.as_str(), user) {
                user_message = match &req.messages[i].content {
                    Some(c) => Some(c.clone()),
                    None => None,
                };
            }
            i = i + 1;
        }
        assert(ms.take(i as int) =~= ms);
        let mut headers: Vec<(String, String)> = Vec::new();
        headers.push((String::from_str(":method"), String::from_str("POST")));
        headers.push((String::from_str(":path"), String::from_str(FUNCTION_CALLING_PATH)));
        headers.push((String::from_str(":authority"), String::from_str("arch_fc")));
        headers.push((String::from_str("content-type"), String::from_str("application/json")));
        headers.push((String::from_str("x-envoy-max-retries"), String::from_str("3")));
        match &self.request_id {
            Some(id) => headers.push((String::from_str(REQUEST_ID_HEADER), id.clone())),
            None => {},
        }
        assert(pairs_view(headers@) =~= fc_call_headers(opt_view(self.request_id)));
        let call = CallArgs {
            upstream: String::from_str(ARCH_INTERNAL_CLUSTER_NAME),
            path: String::from_str(FUNCTION_CALLING_PATH),
            headers,
            body: Some(CallBody::ContextRequest),
            timeout_ms: CALLOUT_TIMEOUT_MS,
        };
        let context = StreamCallContext {
            response_handler_type: ResponseHandlerType::ArchFC,
            user_message,
            prompt_target_name: None,
            request_body: req,
            upstream_cluster: None,
            upstream_cluster_path: None,
        };
        (Disposition::Pause, Action::Dispatch { call, context })
    }
}

proof fn lemma_target_index_prefix(ts: Seq<PromptTarget>, n: int, name: Seq<char>)
    requires
        0 <= n <= ts.len(),
        target_index(ts.take(n), name) is Some,
    ensures
        target_index(ts, name) == target_index(ts.take(n), name),
    decreases ts.len(),
{
    if n < ts.len() {
        assert(ts.drop_last().take(n) =~= ts.take(n));
        lemma_target_index_prefix(ts.drop_last(), n, name);
    } else {
        assert(ts.take(n) =~= ts);
    }
}

proof fn lemma_default_index_prefix(ts: Seq<PromptTarget>, n: int)
    requires
        0 <= n <= ts.len(),
        default_index(ts.take(n)) is Some,
    ensures
        default_index(ts) == default_index(ts.take(n)),
    decreases ts.len(),
{
    if n < ts.len() {
        assert(ts.drop_last().take(n) =~= ts.take(n));
        lemma_default_index_prefix(ts.drop_last(), n);
    } else {
        assert(ts.take(n) =~= ts);
    }
}

} // verus!
