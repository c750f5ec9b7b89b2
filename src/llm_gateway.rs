//! The LLM-egress filter: picks the provider and stamps the routing and
//! credential headers, sets the model and streaming options of the request,
//! asks for rate-limit admission by input tokens, and accounts the reply's
//! tokens, latency and time to first token. Host events come in as plain
//! values; what the host is to do goes out as an outcome.
use std::rc::Rc;
use vstd::prelude::*;
use crate::errors::{error_text, ServerError};
use crate::openai::{
    chunk_payloads, parse_stream_events, reply_completion_tokens, reply_usage_of, stream_events,
    ChatCompletionsRequest, Message, StreamOptions,
};
use crate::ratelimit::{limit_checked, refusal_text, RatelimitRegistry};
use crate::path::{has_key, lemma_lookup_has_key, lookup, pairs_view};
use crate::prompt_gateway::{opt_view, Overrides};
use crate::text::{text_eq, texts_view};
use crate::tokenizer::{bpe_token_count, encoder_model, token_count};
use crate::tools::{split_on, split_text};

verus! {

pub const ARCH_ROUTING_HEADER: &'static str = "x-arch-llm-provider";
pub const ARCH_PROVIDER_HINT_HEADER: &'static str = "x-arch-llm-provider-hint";
pub const RATELIMIT_SELECTOR_HEADER_KEY: &'static str = "x-ratelimit-selector";
pub const CHAT_COMPLETIONS_PATH: &'static str = "/v1/chat/completions";
pub const HEALTHZ_PATH: &'static str = "/healthz";

/// The wire dialect of an LLM provider.
#[derive(PartialEq, Eq, Structural, Clone, Copy, Debug)]
pub enum LlmProviderType {
    OpenAI,
    Mistral,
}

impl LlmProviderType {
    /// The dialect's tag, as the routing header carries it.
    pub fn as_str(&self) -> (r: &'static str)
        ensures
            r@ == interface_tag(*self),
    {
        match self {
            LlmProviderType::OpenAI => "openai",
            LlmProviderType::Mistral => "mistral",
        }
    }
}

pub open spec fn interface_tag(t: LlmProviderType) -> Seq<char> {
    match t {
        LlmProviderType::OpenAI => "openai"@,
        LlmProviderType::Mistral => "mistral"@,
    }
}

/// A configured LLM provider.
pub struct LlmProvider {
    pub name: String,
    pub provider_interface: LlmProviderType,
    pub access_key: Option<String>,
    pub endpoint: Option<String>,
    pub port: Option<u16>,
    pub model: Option<String>,
    pub default: Option<bool>,
    pub stream: Option<bool>,
}

fn copy_opt(o: &Option<String>) -> (r: Option<String>)
    ensures
        r == *o,
{
    match o {
        Some(s) => Some(s.clone()),
        None => None,
    }
}

impl LlmProvider {
    /// A copy of this provider.
    pub fn copy(&self) -> (r: LlmProvider)
        ensures
            r == *self,
    {
        LlmProvider {
            name: self.name.clone(),
            provider_interface: self.provider_interface,
            access_key: copy_opt(&self.access_key),
            endpoint: copy_opt(&self.endpoint),
            port: self.port,
            model: copy_opt(&self.model),
            default: self.default,
            stream: self.stream,
        }
    }
}

/// `i` is the first provider named `h`.
pub open spec fn first_named(ps: Seq<LlmProvider>, h: Seq<char>, i: int) -> bool {
    &&& 0 <= i < ps.len()
    &&& ps[i].name@ == h
    &&& forall|j: int| 0 <= j < i ==> ps[j].name@ != h
}

/// `i` is the first provider flagged as the default.
pub open spec fn first_default(ps: Seq<LlmProvider>, i: int) -> bool {
    &&& 0 <= i < ps.len()
    &&& ps[i].default == Some(true)
    &&& forall|j: int| 0 <= j < i ==> ps[j].default != Some(true)
}

pub open spec fn has_name(ps: Seq<LlmProvider>, h: Seq<char>) -> bool {
    exists|j: int| 0 <= j < ps.len() && ps[j].name@ == h
}

pub open spec fn has_default(ps: Seq<LlmProvider>) -> bool {
    exists|j: int| 0 <= j < ps.len() && ps[j].default == Some(true)
}

/// Whether `i` is the provider that a request with `hint` goes to: the one the
/// hint names, else the default one, else the first one.
pub open spec fn is_selected(ps: Seq<LlmProvider>, hint: Option<Seq<char>>, i: int) -> bool {
    if hint is Some && has_name(ps, hint->Some_0) {
        first_named(ps, hint->Some_0, i)
    } else if has_default(ps) {
        first_default(ps, i)
    } else {
        i == 0 && ps.len() > 0
    }
}

/// The index of the provider for a request: the one the hint names, else
/// the one flagged as the default, else the first one; `None` where there are
/// no providers.
pub fn get_llm_provider(providers: &Vec<LlmProvider>, hint: &Option<String>) -> (r: Option<usize>)
    ensures
        match r {
            Some(i) => is_selected(providers@, opt_view(*hint), i as int),
            None => providers@.len() == 0,
        },
{
    if providers.len() == 0 {
        return None;
    }
    match hint {
        Some(h) => {
            let mut i: usize = 0;
            while i < providers.len()
                invariant
                    i <= providers@.len(),
                    opt_view(*hint) == Some(h@),
                    forall|j: int| 0 <= j < i ==> providers@[j].name@ != h@,
                decreases providers@.len() - i,
            {
                if text_eq(providers[i].name.as_str(), h.as_str()) {
                    assert(providers@[i as int].name@ == h@);
                    assert(has_name(providers@, h@));
                    assert(first_named(providers@, h@, i as int));
                    return Some(i);
                }
                i = i + 1;
            }
        },
        None => {},
    }
    let mut i: usize = 0;
    while i < providers.len()
        invariant
            i <= providers@.len(),
            forall|j: int| 0 <= j < i ==> providers@[j].default != Some(true),
            hint is Some ==> !has_name(providers@, hint->Some_0@),
        decreases providers@.len() - i,
    {
        if providers[i].default == Some(true) {
            assert(has_default(providers@));
            return Some(i);
        }
        i = i + 1;
    }
    Some(0)
}

/// A change to the request headers.
pub enum HeaderOp {
    /// Append a header.
    Add(String, String),
    /// Replace every header of the name by one.
    Replace(String, String),
    /// Remove every header of the name.
    Remove(String),
}

/// The number of headers named `n`.
pub open spec fn header_count(hs: Seq<(Seq<char>, Seq<char>)>, n: Seq<char>) -> nat
    decreases hs.len(),
{
    if hs.len() == 0 {
        0
    } else {
        header_count(hs.drop_last(), n) + if hs.last().0 == n { 1nat } else { 0nat }
    }
}

/// The headers without those named `n`.
pub open spec fn without(hs: Seq<(Seq<char>, Seq<char>)>, n: Seq<char>) -> Seq<(Seq<char>, Seq<char>)>
    decreases hs.len(),
{
    if hs.len() == 0 {
        hs
    } else {
        let r = without(hs.drop_last(), n);
        if hs.last().0 == n {
            r
        } else {
            r.push(hs.last())
        }
    }
}

pub open spec fn op_name(op: HeaderOp) -> Seq<char> {
    match op {
        HeaderOp::Add(n, _) => n@,
        HeaderOp::Replace(n, _) => n@,
        HeaderOp::Remove(n) => n@,
    }
}

/// The headers after one change.
pub open spec fn apply_op(hs: Seq<(Seq<char>, Seq<char>)>, op: HeaderOp) -> Seq<(Seq<char>, Seq<char>)> {
    match op {
        HeaderOp::Add(n, v) => hs.push((n@, v@)),
        HeaderOp::Replace(n, v) => without(hs, n@).push((n@, v@)),
        HeaderOp::Remove(n) => without(hs, n@),
    }
}

/// The headers after the changes, in order.
pub open spec fn apply_ops(hs: Seq<(Seq<char>, Seq<char>)>, ops: Seq<HeaderOp>) -> Seq<(Seq<char>, Seq<char>)>
    decreases ops.len(),
{
    if ops.len() == 0 {
        hs
    } else {
        apply_op(apply_ops(hs, ops.drop_last()), ops.last())
    }
}

proof fn lemma_without_count(hs: Seq<(Seq<char>, Seq<char>)>, m: Seq<char>, n: Seq<char>)
    ensures
        header_count(without(hs, m), n) == if m == n { 0 } else { header_count(hs, n) },
    decreases hs.len(),
{
    if hs.len() > 0 {
        lemma_without_count(hs.drop_last(), m, n);
        let r = without(hs.drop_last(), m);
        assert(r.push(hs.last()).drop_last() =~= r);
    }
}

proof fn lemma_push_count(hs: Seq<(Seq<char>, Seq<char>)>, p: (Seq<char>, Seq<char>), n: Seq<char>)
    ensures
        header_count(hs.push(p), n) == header_count(hs, n) + if p.0 == n { 1nat } else { 0nat },
{
    assert(hs.push(p).drop_last() =~= hs);
}

/// A header change as plain values: its kind (add, replace, remove), name
/// and value.
pub open spec fn op_view(op: HeaderOp) -> (nat, Seq<char>, Seq<char>) {
    match op {
        HeaderOp::Add(n, v) => (0, n@, v@),
        HeaderOp::Replace(n, v) => (1, n@, v@),
        HeaderOp::Remove(n) => (2, n@, Seq::empty()),
    }
}

pub open spec fn ops_view(ops: Seq<HeaderOp>) -> Seq<(nat, Seq<char>, Seq<char>)> {
    ops.map_values(|op: HeaderOp| op_view(op))
}

proof fn lemma_count_has_key(hs: Seq<(Seq<char>, Seq<char>)>, n: Seq<char>)
    ensures
        header_count(hs, n) > 0 <==> has_key(hs, n),
    decreases hs.len(),
{
    if hs.len() > 0 {
        let pre = hs.drop_last();
        lemma_count_has_key(pre, n);
        if has_key(hs, n) {
            let i = choose|i: int| 0 <= i < hs.len() && #[trigger] hs[i].0 == n;
            if i < pre.len() {
                assert(pre[i].0 == n);
            }
        }
        if has_key(pre, n) {
            let i = choose|i: int| 0 <= i < pre.len() && #[trigger] pre[i].0 == n;
            assert(hs[i].0 == n);
        }
        if hs.last().0 == n {
            assert(hs[hs.len() - 1].0 == n);
        }
    }
}

/// The number of additions of a header named `n`.
pub open spec fn adds(v: Seq<(nat, Seq<char>, Seq<char>)>, n: Seq<char>) -> nat
    decreases v.len(),
{
    if v.len() == 0 {
        0
    } else {
        adds(v.drop_last(), n) + if v.last().0 == 0 && v.last().1 == n { 1nat } else { 0nat }
    }
}

/// Changes that neither replace nor remove headers named `n` add to their
/// number exactly the additions of that name.
proof fn lemma_ops_count(hs: Seq<(Seq<char>, Seq<char>)>, ops: Seq<HeaderOp>, n: Seq<char>)
    requires
        forall|i: int| 0 <= i < ops.len() && ops_view(ops)[i].0 != 0 ==> #[trigger] ops_view(ops)[i].1 != n,
    ensures
        header_count(apply_ops(hs, ops), n) == header_count(hs, n) + adds(ops_view(ops), n),
    decreases ops.len(),
{
    if ops.len() > 0 {
        let pre = ops.drop_last();
        assert(ops_view(pre) =~= ops_view(ops).drop_last());
        assert forall|i: int| 0 <= i < pre.len() && ops_view(pre)[i].0 != 0 implies #[trigger] ops_view(pre)[i].1 != n by {
            assert(ops_view(pre)[i] == ops_view(ops)[i]);
        }
        lemma_ops_count(hs, pre, n);
        let h1 = apply_ops(hs, pre);
        let op = ops.last();
        let last = ops.len() - 1;
        assert(ops_view(ops)[last] == op_view(op));
        assert(ops_view(ops)[last].0 != 0 ==> ops_view(ops)[last].1 != n);
        assert(ops_view(ops).last() == op_view(op));
        assert(adds(ops_view(ops), n) == adds(ops_view(pre), n) + if op_view(op).0 == 0 && op_view(op).1 == n {
            1nat
        } else {
            0nat
        });
        match op {
            HeaderOp::Add(a, v) => lemma_push_count(h1, (a@, v@), n),
            HeaderOp::Replace(a, v) => {
                lemma_without_count(h1, a@, n);
                lemma_push_count(without(h1, a@), (a@, v@), n);
            },
            HeaderOp::Remove(a) => lemma_without_count(h1, a@, n),
        }
    }
}

/// A rate-limit selector: a header name and its value.
pub struct Header {
    pub key: String,
    pub value: String,
}

/// What to do with the request headers.
pub enum HeadersOutcome {
    /// Answer the client directly and change nothing.
    Respond { status: u16, body: String },
    /// Apply the changes and let the request go on.
    Forward { ops: Vec<HeaderOp> },
}

/// A metric value to record.
#[derive(PartialEq, Eq, Structural, Clone, Copy, Debug)]
pub enum MetricRecord {
    InputSequenceLength(u64),
    RequestLatency(u64),
    OutputSequenceLength(u64),
    TimePerOutputToken(u64),
    TokensPerSecond(u64),
    TimeToFirstToken(u64),
}

/// The per-request state of the LLM-egress filter.
pub struct StreamContext {
    pub context_id: u32,
    pub ratelimit_selector: Option<Header>,
    pub streaming_response: bool,
    pub response_tokens: usize,
    pub is_chat_completions_request: bool,
    pub llm_providers: Rc<Vec<LlmProvider>>,
    pub llm_provider: Option<LlmProvider>,
    pub request_id: Option<String>,
    pub start_time_ns: u64,
    pub ttft_duration_ms: Option<u64>,
    pub ttft_time: Option<u64>,
    pub traceparent: Option<String>,
    pub request_body_sent_time: Option<u64>,
    pub user_prompt: Option<String>,
    pub overrides: Rc<Option<Overrides>>,
}

/// Whether the agent orchestrator stands in for a provider.
pub open spec fn orchestrator(o: Option<Overrides>) -> bool {
    o is Some && o->Some_0.use_agent_orchestrator == Some(true)
}

/// The value of the first header named `n`.
pub open spec fn header_of(hs: Seq<(String, String)>, n: Seq<char>) -> Option<Seq<char>> {
    lookup(pairs_view(hs), n)
}

fn get_header(headers: &Vec<(String, String)>, name: &str) -> (r: Option<String>)
    ensures
        opt_view(r) == header_of(headers@, name@),
{
    match crate::path::find_value(headers, name) {
        Some(v) => Some(v.clone()),
        None => None,
    }
}

impl StreamContext {
    /// A fresh context for one request that started at `start_time_ns`.
    pub fn new(
        context_id: u32,
        llm_providers: Rc<Vec<LlmProvider>>,
        overrides: Rc<Option<Overrides>>,
        start_time_ns: u64,
    ) -> (r: Self)
        ensures
            r.context_id == context_id,
            r.llm_providers == llm_providers,
            r.overrides == overrides,
            r.start_time_ns == start_time_ns,
            r.ratelimit_selector is None,
            !r.streaming_response,
            r.response_tokens == 0,
            !r.is_chat_completions_request,
            r.llm_provider is None,
            r.request_id is None,
            r.ttft_duration_ms is None,
            r.ttft_time is None,
            r.traceparent is None,
            r.request_body_sent_time is None,
            r.user_prompt is None,
    {
        StreamContext {
            context_id,
            ratelimit_selector: None,
            streaming_response: false,
            response_tokens: 0,
            is_chat_completions_request: false,
            llm_providers,
            llm_provider: None,
            request_id: None,
            start_time_ns,
            ttft_duration_ms: None,
            ttft_time: None,
            traceparent: None,
            request_body_sent_time: None,
            user_prompt: None,
            overrides,
        }
    }
}

/// The reply text for a provider without an access key.
pub open spec fn missing_key_text(name: Seq<char>) -> Seq<char> {
    "No access key configured for selected LLM Provider \""@ + name + "\""@
}

/// The changes that route a request to provider `p`: the routing header
/// (its name where it has an endpoint, else its dialect), and the bearer
/// credential where it has a key.
pub open spec fn provider_ops(p: LlmProvider) -> Seq<(nat, Seq<char>, Seq<char>)> {
    let tag = if p.endpoint is Some {
        p.name@
    } else {
        interface_tag(p.provider_interface)
    };
    let route = seq![(0nat, ARCH_ROUTING_HEADER@, tag)];
    match p.access_key {
        Some(k) => route.push((1nat, "Authorization"@, "Bearer "@ + k@)),
        None => route,
    }
}

/// The selector named by the selector header, with the value of the header it names.
pub open spec fn selector_of(hs: Seq<(String, String)>) -> Option<(Seq<char>, Seq<char>)> {
    match header_of(hs, RATELIMIT_SELECTOR_HEADER_KEY@) {
        Some(k) => match header_of(hs, k) {
            Some(v) => Some((k, v)),
            None => None,
        },
        None => None,
    }
}

pub open spec fn selector_view(h: Option<Header>) -> Option<(Seq<char>, Seq<char>)> {
    match h {
        Some(x) => Some((x.key@, x.value@)),
        None => None,
    }
}

impl StreamContext {
    /// The provider chosen for this request.
    pub fn llm_provider(&self) -> (r: Option<&LlmProvider>)
        ensures
            match self.llm_provider {
                Some(p) => r == Some(&p),
                None => r is None,
            },
    {
        match &self.llm_provider {
            Some(p) => Some(p),
            None => None,
        }
    }

    /// Chooses the provider for `hint` and keeps a copy of it; `false` where
    /// there are no providers.
    pub fn select_llm_provider(&mut self, hint: &Option<String>) -> (r: bool)
        ensures
            r == (old(self).llm_providers@.len() > 0),
            r ==> exists|i: int| is_selected(old(self).llm_providers@, opt_view(*hint), i)
                && final(self).llm_provider == Some(old(self).llm_providers@[i]),
            !r ==> final(self).llm_provider == old(self).llm_provider,
            final(self).llm_providers == old(self).llm_providers,
            final(self).overrides == old(self).overrides,
            final(self).response_tokens == old(self).response_tokens,
    {
        match get_llm_provider(&self.llm_providers, hint) {
            Some(i) => {
                let p = self.llm_providers[i].copy();
                self.llm_provider = Some(p);
                assert(is_selected(self.llm_providers@, opt_view(*hint), i as int));
                true
            },
            None => false,
        }
    }

    /// Adds the bearer credential of the chosen provider, or fails where it
    /// has no access key.
    pub fn modify_auth_headers(&self, ops: &mut Vec<HeaderOp>) -> (r: Result<(), ServerError>)
        requires
            self.llm_provider is Some,
        ensures
            match self.llm_provider->Some_0.access_key {
                Some(k) => r is Ok && ops_view(final(ops)@) == ops_view(old(ops)@).push(
                    (1nat, "Authorization"@, "Bearer "@ + k@),
                ),
                None => r is Err && final(ops)@ == old(ops)@ && error_text(r->Err_0) == missing_key_text(
                    self.llm_provider->Some_0.name@,
                ),
            },
    {
        let p = match &self.llm_provider {
            Some(p) => p,
            None => {
                return Err(ServerError::LogicError(String::new()));
            },
        };
        match &p.access_key {
            Some(k) => {
                let mut v = String::from_str("Bearer ");
                v.append(k.as_str());
                let ghost before = ops@;
                ops.push(HeaderOp::Replace(String::from_str("Authorization"), v));
                assert(ops_view(ops@) =~= ops_view(before).push((1nat, "Authorization"@, "Bearer "@ + k@)));
                Ok(())
            },
            None => {
                let mut why = String::from_str("No access key configured for selected LLM Provider \"");
                why.append(p.name.as_str());
                why.append("\"");
                assert(why@ =~= missing_key_text(p.name@));
                Err(ServerError::BadRequest { why })
            },
        }
    }

    /// Drops the content length: the body is rewritten further on.
    pub fn delete_content_length_header(&self, ops: &mut Vec<HeaderOp>)
        ensures
            ops_view(final(ops)@) == ops_view(old(ops)@).push((2nat, "content-length"@, Seq::empty())),
    {
        let ghost before = ops@;
        ops.push(HeaderOp::Remove(String::from_str("content-length")));
        assert(ops_view(ops@) =~= ops_view(before).push((2nat, "content-length"@, Seq::empty())));
    }

    /// Keeps the rate-limit selector: the header that the selector header
    /// names, with its value.
    pub fn save_ratelimit_header(&mut self, headers: &Vec<(String, String)>)
        ensures
            selector_view(final(self).ratelimit_selector) == selector_of(headers@),
            final(self).overrides == old(self).overrides,
            final(self).llm_provider == old(self).llm_provider,
            final(self).llm_providers == old(self).llm_providers,
            final(self).response_tokens == old(self).response_tokens,
    {
        self.ratelimit_selector = match get_header(headers, RATELIMIT_SELECTOR_HEADER_KEY) {
            Some(key) => match get_header(headers, key.as_str()) {
                Some(value) => Some(Header { key, value }),
                None => None,
            },
            None => None,
        };
    }

    /// Decides on the request headers. `/healthz` is answered at once. A
    /// request that already carries the routing header keeps it; any other
    /// gets the routing header and credential of the selected provider, or a
    /// `400` where that provider has neither key nor endpoint and no agent
    /// orchestrator stands in. The content length is dropped, and the
    /// rate-limit selector, request id and trace parent are kept.
    pub fn on_http_request_headers(&mut self, headers: &Vec<(String, String)>) -> (r: HeadersOutcome)
        ensures
            final(self).response_tokens == old(self).response_tokens,
            final(self).llm_providers == old(self).llm_providers,
            final(self).overrides == old(self).overrides,
            header_of(headers@, ":path"@) == Some(HEALTHZ_PATH@) ==> (r matches HeadersOutcome::Respond {
                status,
                body,
            } && status == 200 && body@.len() == 0 && *final(self) == *old(self)),
            header_of(headers@, ":path"@) != Some(HEALTHZ_PATH@) ==> ({
                let routed = header_of(headers@, ARCH_ROUTING_HEADER@);
                let ps = old(self).llm_providers@;
                let hint = header_of(headers@, ARCH_PROVIDER_HINT_HEADER@);
                if routed is Some {
                    &&& r is Forward
                    &&& ops_view(r->ops@) == seq![(2nat, "content-length"@, Seq::<char>::empty())]
                    &&& final(self).llm_provider is Some
                    &&& final(self).llm_provider->Some_0.name@ == routed->Some_0
                    &&& final(self).llm_provider->Some_0.access_key is None
                    &&& final(self).llm_provider->Some_0.endpoint is None
                    &&& final(self).llm_provider->Some_0.model is None
                } else if ps.len() == 0 {
                    (r matches HeadersOutcome::Respond { status, .. } && status == 500)
                } else {
                    exists|i: int| #[trigger] is_selected(ps, hint, i) && {
                        let p = ps[i];
                        if p.access_key is None && p.endpoint is None && !orchestrator(*old(self).overrides) {
                            (r matches HeadersOutcome::Respond { status, body } && status == 400 && body@
                                == missing_key_text(p.name@))
                        } else {
                            &&& r is Forward
                            &&& ops_view(r->ops@) == provider_ops(p).push(
                                (2nat, "content-length"@, Seq::<char>::empty()),
                            )
                            &&& final(self).llm_provider == Some(p)
                        }
                    }
                }
            }),
            r is Forward ==> {
                &&& selector_view(final(self).ratelimit_selector) == selector_of(headers@)
                &&& final(self).is_chat_completions_request == (header_of(headers@, ":path"@) == Some(
                    CHAT_COMPLETIONS_PATH@,
                ))
                &&& opt_view(final(self).request_id) == header_of(headers@, "x-request-id"@)
                &&& opt_view(final(self).traceparent) == header_of(headers@, "traceparent"@)
            },
            r is Forward && header_count(pairs_view(headers@), ARCH_ROUTING_HEADER@) <= 1 ==> header_count(
                apply_ops(pairs_view(headers@), r->ops@),
                ARCH_ROUTING_HEADER@,
            ) == 1,
    {
        let path = get_header(headers, ":path");
        let is_healthz = match &path {
            Some(p) => text_eq(p.as_str(), HEALTHZ_PATH),
            None => false,
        };
        if is_healthz {
            return HeadersOutcome::Respond { status: 200, body: String::new() };
        }
        let ghost hv = pairs_view(headers@);
        let routing = get_header(headers, ARCH_ROUTING_HEADER);
        let orchestrator_on = match &*self.overrides {
            Some(o) => o.use_agent_orchestrator == Some(true),
            None => false,
        };
        let mut ops: Vec<HeaderOp> = Vec::new();
        match routing {
            Some(name) => {
                proof {
                    lemma_lookup_has_key(hv, ARCH_ROUTING_HEADER@);
                    lemma_count_has_key(hv, ARCH_ROUTING_HEADER@);
                }
                self.llm_provider = Some(LlmProvider {
                    name,
                    provider_interface: LlmProviderType::OpenAI,
                    access_key: None,
                    endpoint: None,
                    port: None,
                    model: None,
                    default: None,
                    stream: None,
                });
            },
            None => {
                proof {
                    lemma_lookup_has_key(hv, ARCH_ROUTING_HEADER@);
                    lemma_count_has_key(hv, ARCH_ROUTING_HEADER@);
                }
                let hint = get_header(headers, ARCH_PROVIDER_HINT_HEADER);
                if !self.select_llm_provider(&hint) {
                    let e = ServerError::LogicError(String::from_str("no llm provider is configured"));
                    return HeadersOutcome::Respond { status: 500, body: e.to_text() };
                }
                let p = match &self.llm_provider {
                    Some(p) => p,
                    None => {
                        return HeadersOutcome::Respond { status: 500, body: String::new() };
                    },
                };
                let tag = if p.endpoint.is_some() {
                    p.name.clone()
                } else {
                    String::from_str(p.provider_interface.as_str())
                };
                ops.push(HeaderOp::Add(String::from_str(ARCH_ROUTING_HEADER), tag));
                match self.modify_auth_headers(&mut ops) {
                    Ok(()) => {},
                    Err(e) => {
                        if p.endpoint.is_none() && !orchestrator_on {
                            return HeadersOutcome::Respond { status: 400, body: e.to_text() };
                        }
                    },
                }
                assert(ops_view(ops@) =~= provider_ops(*p));
            },
        }
        self.delete_content_length_header(&mut ops);
        self.save_ratelimit_header(headers);
        self.is_chat_completions_request = match &path {
            Some(p) => text_eq(p.as_str(), CHAT_COMPLETIONS_PATH),
            None => false,
        };
        self.request_id = get_header(headers, "x-request-id");
        self.traceparent = get_header(headers, "traceparent");
        proof {
            reveal_strlit("x-arch-llm-provider");
            reveal_strlit("content-length");
            reveal_strlit("Authorization");
            let v = ops_view(ops@);
            assert(v.len() <= 3);
            assert forall|i: int| 0 <= i < ops@.len() && ops_view(ops@)[i].0 != 0 implies #[trigger] ops_view(
                ops@,
            )[i].1 != ARCH_ROUTING_HEADER@ by {
                assert(ops_view(ops@)[i].1.len() != ARCH_ROUTING_HEADER@.len());
            }
            lemma_ops_count(hv, ops@, ARCH_ROUTING_HEADER@);
            let n = ARCH_ROUTING_HEADER@;
            let e = Seq::<(nat, Seq<char>, Seq<char>)>::empty();
            assert(v.len() >= 1);
            assert(v.last().0 == 2);
            if v.len() == 1 {
                assert(v.drop_last() =~= e);
                assert(adds(v, n) == adds(e, n));
            } else if v.len() == 2 {
                assert(v.drop_last().drop_last() =~= e);
                assert(v[0].0 == 0 && v[0].1 == n);
                assert(v.drop_last().last() == v[0]);
                assert(adds(v.drop_last(), n) == adds(e, n) + 1);
                assert(adds(v, n) == 1);
            } else {
                assert(v.drop_last().drop_last().drop_last() =~= e);
                assert(v[0].0 == 0 && v[0].1 == n);
                assert(v[1].0 == 1);
                let v2 = v.drop_last().drop_last();
                assert(v2.len() == 1 && v2.last() == v[0]);
                assert(v2.drop_last() =~= e);
                assert(adds(v2, n) == adds(e, n) + 1);
                assert(v.drop_last().last() == v[1]);
                assert(adds(v.drop_last(), n) == 1);
                assert(adds(v, n) == 1);
            }
        }
        HeadersOutcome::Forward { ops }
    }
}

/// The lower-case form of a text.
pub uninterp spec fn lower_of(s: Seq<char>) -> Seq<char>;

/// Relies on `str::to_lowercase`: the result depends on the characters alone,
/// and an empty text stays empty.
#[verifier::external_body]
fn lowercase(s: &str) -> (r: String)
    ensures
        r@ == lower_of(s@),
        s@.len() == 0 ==> r@.len() == 0,
{
    s.to_lowercase()
}

/// Whether a request names no model: empty, or `none` in any case.
pub open spec fn names_no_model(m: Seq<char>) -> bool {
    m.len() == 0 || lower_of(m) == "none"@
}

/// The model a request goes to, or `None` where it names none and neither the
/// provider nor the agent orchestrator supplies one.
pub open spec fn effective_model(requested: Seq<char>, provider: Option<LlmProvider>, orch: bool) -> Option<Seq<char>> {
    if !names_no_model(requested) {
        Some(requested)
    } else if provider is Some && provider->Some_0.model is Some {
        Some(provider->Some_0.model->Some_0@)
    } else if orch {
        Some("agent_orchestrator"@)
    } else {
        None
    }
}

/// `b` is `a` without its model tag.
pub open spec fn without_model(a: Message, b: Message) -> bool {
    &&& b.role == a.role
    &&& b.content == a.content
    &&& b.model is None
    &&& b.tool_calls == a.tool_calls
    &&& b.tool_call_id == a.tool_call_id
}

/// The text that input tokens are counted on: each message's content (or
/// nothing) after a space.
pub open spec fn input_text(ms: Seq<Message>) -> Seq<char>
    decreases ms.len(),
{
    if ms.len() == 0 {
        Seq::empty()
    } else {
        input_text(ms.drop_last()) + " "@ + match ms.last().content {
            Some(c) => c@,
            None => Seq::empty(),
        }
    }
}

/// The content of the last user message.
pub open spec fn last_user_content(ms: Seq<Message>) -> Option<Seq<char>>
    decreases ms.len(),
{
    if ms.len() == 0 {
        None
    } else if ms.last().role@ == "user"@ {
        opt_view(ms.last().content)
    } else {
        last_user_content(ms.drop_last())
    }
}

/// A rate-limit admission to ask for: model, selector and input tokens.
pub struct Admission {
    pub model: String,
    pub selector: Header,
    pub tokens: usize,
}

/// What to do with the request body.
pub enum BodyOutcome {
    /// Wait for the rest of the body.
    Pause,
    /// Let the request go on unchanged.
    Continue,
    /// Answer the client directly.
    Respond { status: u16, body: String },
    /// Write `request` as the body and let the request go on; where
    /// `admission` is given, only once the rate-limit registry admits it.
    Forward { request: ChatCompletionsRequest, input_tokens: usize, admission: Option<Admission> },
}

/// The input-token count of `text` for `model`, or `0` where it cannot be had.
pub open spec fn count_or_zero(model: Seq<char>, text: Seq<char>) -> nat {
    match bpe_token_count(encoder_model(model), text) {
        Some(n) => n,
        None => 0,
    }
}

impl StreamContext {
    /// Counts the input tokens of `text` for `model` and takes the rate-limit
    /// selector: where there is one and the count is not zero, the admission to
    /// ask for.
    pub fn enforce_ratelimits(&mut self, model: &str, text: &str) -> (r: (usize, Option<Admission>))
        ensures
            r.0 as nat == count_or_zero(model@, text@),
            final(self).ratelimit_selector is None,
            match r.1 {
                Some(a) => old(self).ratelimit_selector is Some && r.0 > 0 && a.model@ == model@
                    && a.tokens == r.0 && selector_view(Some(a.selector)) == selector_view(
                    old(self).ratelimit_selector,
                ),
                None => old(self).ratelimit_selector is None || r.0 == 0,
            },
            final(self).response_tokens == old(self).response_tokens,
            final(self).streaming_response == old(self).streaming_response,
            final(self).llm_provider == old(self).llm_provider,
            final(self).overrides == old(self).overrides,
            final(self).is_chat_completions_request == old(self).is_chat_completions_request,
            final(self).request_body_sent_time == old(self).request_body_sent_time,
            final(self).ttft_time == old(self).ttft_time,
            final(self).llm_providers == old(self).llm_providers,
            final(self).traceparent == old(self).traceparent,
            final(self).user_prompt == old(self).user_prompt,
    {
        let tokens = match token_count(model, text) {
            Ok(n) => n,
            Err(_) => 0,
        };
        let selector = self.ratelimit_selector.take();
        match selector {
            Some(sel) => {
                if tokens > 0 {
                    (tokens, Some(Admission { model: String::from_str(model), selector: sel, tokens }))
                } else {
                    (tokens, None)
                }
            },
            None => (tokens, None),
        }
    }

    /// The direct reply for `error`: its status (`override_status_code`, or
    /// else `500`) and text.
    pub fn send_server_error(&self, error: ServerError, override_status_code: Option<u16>) -> (r: (u16, String))
        ensures
            r.0 == match override_status_code {
                Some(c) => c,
                None => 500,
            },
            r.1@ == error_text(error),
    {
        let status = match override_status_code {
            Some(c) => c,
            None => 500,
        };
        (status, error.to_text())
    }

    /// Asks `registry` to admit a forwarded request's input tokens: where it
    /// refuses, the request is answered with `429` and the refusal instead of
    /// going on.
    pub fn request_admission(&self, registry: &mut RatelimitRegistry, admission: &Admission, now_ns: u64) -> (r: Option<BodyOutcome>)
        ensures
            limit_checked(
                *old(registry),
                *final(registry),
                admission.model@,
                admission.selector.key@,
                admission.selector.value@,
                admission.tokens as u64,
                now_ns,
                r is None,
            ),
            r is Some ==> (r->Some_0 matches BodyOutcome::Respond { status, body } && status == 429 && body@
                == "exceeded rate limit: "@ + refusal_text()),
    {
        match registry.check_limit(admission.model.as_str(), &admission.selector, admission.tokens as u64, now_ns) {
            Ok(()) => None,
            Err(reason) => Some(self.ratelimit_exceeded(reason)),
        }
    }

    /// The answer when the rate-limit registry refuses admission.
    pub fn ratelimit_exceeded(&self, reason: String) -> (r: BodyOutcome)
        ensures
            r matches BodyOutcome::Respond { status, body } && status == 429 && body@
                == "exceeded rate limit: "@ + reason@,
    {
        let e = ServerError::ExceededRatelimit(reason);
        BodyOutcome::Respond { status: 429, body: e.to_text() }
    }

    /// Decides on the request body, once it is whole: it must be a chat
    /// request; its messages lose their model tags; a request naming no model
    /// gets the provider's (or the agent orchestrator); a streamed request
    /// without options asks for usage; and the input tokens are counted for
    /// rate limiting. `request` is the body read as a chat request, `None`
    /// where it could not be read.
    pub fn on_http_request_body(
        &mut self,
        body_size: usize,
        end_of_stream: bool,
        request: Option<Result<ChatCompletionsRequest, String>>,
        now_ns: u64,
    ) -> (r: BodyOutcome)
        ensures
            final(self).request_body_sent_time == match old(self).request_body_sent_time {
                Some(t) => Some(t),
                None => Some(now_ns),
            },
            final(self).response_tokens == old(self).response_tokens,
            final(self).llm_provider == old(self).llm_provider,
            final(self).llm_providers == old(self).llm_providers,
            final(self).is_chat_completions_request == old(self).is_chat_completions_request,
            final(self).traceparent == old(self).traceparent,
            final(self).ttft_time == old(self).ttft_time,
            !end_of_stream ==> r is Pause,
            end_of_stream && body_size == 0 ==> r is Continue,
            !(r is Forward) ==> final(self).ratelimit_selector == old(self).ratelimit_selector
                && final(self).streaming_response == old(self).streaming_response && final(self).user_prompt
                == old(self).user_prompt,
            r is Forward ==> final(self).ratelimit_selector is None,
            end_of_stream && body_size > 0 ==> match request {
                None => (r matches BodyOutcome::Respond { status, .. } && status == 500),
                Some(Err(e)) => (r matches BodyOutcome::Respond { status, body } && status == 400 && body@
                    == "error deserializing: "@ + e@),
                Some(Ok(req)) => match effective_model(
                    req.model@,
                    old(self).llm_provider,
                    orchestrator(*old(self).overrides),
                ) {
                    None => (r matches BodyOutcome::Respond { status, .. } && status == 400),
                    Some(m) => r matches BodyOutcome::Forward { request, input_tokens, admission } && {
                        &&& request.model@ == m
                        &&& request.messages@.len() == req.messages@.len()
                        &&& forall|i: int| 0 <= i < req.messages@.len() ==> without_model(
                            req.messages@[i],
                            #[trigger] request.messages@[i],
                        )
                        &&& request.stream == req.stream
                        &&& request.stream_options == if req.stream && req.stream_options is None {
                            Some(StreamOptions { include_usage: true })
                        } else {
                            req.stream_options
                        }
                        &&& request.tools == req.tools
                        &&& request.metadata == req.metadata
                        &&& (input_tokens as nat == count_or_zero(m, input_text(req.messages@)))
                        &&& match admission {
                            Some(a) => old(self).ratelimit_selector is Some && a.model@ == m && a.tokens
                                == input_tokens && input_tokens > 0,
                            None => old(self).ratelimit_selector is None || input_tokens == 0,
                        }
                        &&& final(self).streaming_response == (old(self).streaming_response || req.stream)
                        &&& opt_view(final(self).user_prompt) == last_user_content(req.messages@)
                    },
                },
            },
    {
        if self.request_body_sent_time.is_none() {
            self.request_body_sent_time = Some(now_ns);
        }
        if !end_of_stream {
            return BodyOutcome::Pause;
        }
        if body_size == 0 {
            return BodyOutcome::Continue;
        }
        let req = match request {
            None => {
                let e = ServerError::LogicError(String::from_str("failed to obtain the request body"));
                return BodyOutcome::Respond { status: 500, body: e.to_text() };
            },
            Some(Err(e)) => {
                let e = ServerError::Deserialization(e);
                return BodyOutcome::Respond { status: 400, body: e.to_text() };
            },
            Some(Ok(req)) => req,
        };
        let ChatCompletionsRequest { model, messages, tools, stream, stream_options, metadata } = req;
        let ghost orig = messages@;
        let mut rest = messages;
        let mut stripped: Vec<Message> = Vec::new();
        let mut text = String::new();
        let mut user_prompt: Option<String> = None;
        let mut k: usize = 0;
        assert(orig.len() == rest.len());
        assert(orig.take(0) =~= Seq::<Message>::empty());
        while rest.len() > 0
            invariant
                k <= orig.len(),
                orig.len() <= usize::MAX,
                orig.len() == k + rest@.len(),
                rest@ == orig.skip(k as int),
                stripped@.len() == k,
                forall|i: int| 0 <= i < k ==> without_model(orig[i], #[trigger] stripped@[i]),
                text@ == input_text(orig.take(k as int)),
                opt_view(user_prompt) == last_user_content(orig.take(k as int)),
            decreases rest@.len(),
        {
            let m = rest.remove(0);
            assert(m == orig[k as int]);
            assert(rest@ =~= orig.skip(k + 1));
            assert(orig.take(k + 1).drop_last() =~= orig.take(k as int));
            text.append(" ");
            match &m.content {
                Some(c) => text.append(c.as_str()),
                None => {},
            }
            let user = "user";
            proof {
                reveal_strlit("user");
            }
            if text_eq(m.role.as_str(), user) {
                user_prompt = match &m.content {
                    Some(c) => Some(c.clone()),
                    None => None,
                };
            }
            let Message { role, content, model: _, tool_calls, tool_call_id } = m;
            stripped.push(Message { role, content, model: None, tool_calls, tool_call_id });
            k = k + 1;
        }
        assert(orig.take(k as int) =~= orig);
        let orchestrator_on = match &*self.overrides {
            Some(o) => o.use_agent_orchestrator == Some(true),
            None => false,
        };
        let lowered = lowercase(model.as_str());
        let none = "none";
        let no_model = model.unicode_len() == 0 || text_eq(lowered.as_str(), none);
        let chosen = if no_model {
            let provider_model = match &self.llm_provider {
                Some(p) => match &p.model {
                    Some(pm) => Some(pm.clone()),
                    None => None,
                },
                None => None,
            };
            match provider_model {
                Some(pm) => pm,
                None => {
                    if orchestrator_on {
                        String::from_str("agent_orchestrator")
                    } else {
                        let e = ServerError::BadRequest {
                            why: String::from_str("No model specified in request and couldn't determine model name from arch_config"),
                        };
                        return BodyOutcome::Respond { status: 400, body: e.to_text() };
                    }
                },
            }
        } else {
            model
        };
        if stream {
            self.streaming_response = true;
        }
        let stream_options = if stream && stream_options.is_none() {
            Some(StreamOptions { include_usage: true })
        } else {
            stream_options
        };
        self.user_prompt = user_prompt;
        let (input_tokens, admission) = self.enforce_ratelimits(chosen.as_str(), text.as_str());
        let request = ChatCompletionsRequest {
            model: chosen,
            messages: stripped,
            tools,
            stream,
            stream_options,
            metadata,
        };
        BodyOutcome::Forward { request, input_tokens, admission }
    }
}

/// The trace id and parent id of a `traceparent` header: four fields
/// separated by `-`, of which the second has 32 characters and the third 16.
pub open spec fn traceparent_ids(tp: Seq<char>) -> Option<(Seq<char>, Seq<char>)> {
    let parts = split_on(tp, '-');
    if parts.len() == 4 && parts[1].len() == 32 && parts[2].len() == 16 {
        Some((parts[1], parts[2]))
    } else {
        None
    }
}

/// Reads the trace id and parent id of a `traceparent` header.
pub fn parse_traceparent(tp: &str) -> (r: Option<(String, String)>)
    ensures
        match r {
            Some(ids) => traceparent_ids(tp@) == Some((ids.0@, ids.1@)),
            None => traceparent_ids(tp@) is None,
        },
{
    let parts = split_text(tp, '-');
    proof {
        assert(texts_view(parts@).len() == parts@.len());
    }
    if parts.len() == 4 && parts[1].unicode_len() == 32 && parts[2].unicode_len() == 16 {
        assert(texts_view(parts@)[1] == parts@[1]@);
        assert(texts_view(parts@)[2] == parts@[2]@);
        Some((parts[1].clone(), parts[2].clone()))
    } else {
        proof {
            if parts@.len() == 4 {
                assert(texts_view(parts@)[1] == parts@[1]@);
                assert(texts_view(parts@)[2] == parts@[2]@);
            }
        }
        None
    }
}

/// A trace span of one request's egress.
pub struct TraceSpan {
    pub name: String,
    pub trace_id: String,
    pub parent_id: String,
    pub start_time_ns: u64,
    pub end_time_ns: u64,
    pub attributes: Vec<(String, String)>,
    /// Named events and their times.
    pub events: Vec<(String, u64)>,
}

/// What the response body leads to: metrics to record and a span to queue.
/// The body itself always passes through unchanged.
pub struct ResponseOutcome {
    pub metrics: Vec<MetricRecord>,
    pub span: Option<TraceSpan>,
}

/// Milliseconds from `start` to `now`, where `now` is not earlier.
pub open spec fn elapsed_ms(start: u64, now: u64) -> Option<u64> {
    if now >= start {
        Some(((now - start) / 1_000_000int) as u64)
    } else {
        None
    }
}

/// The metrics of a finished turn: latency, time per output token and
/// tokens per second where there were output tokens, and the output length.
pub open spec fn turn_metrics(latency: Option<u64>, tokens: usize) -> Seq<MetricRecord> {
    let lat = match latency {
        Some(l) => {
            let base = seq![MetricRecord::RequestLatency(l)];
            if tokens > 0 {
                let tpot = (l / (tokens as u64)) as u64;
                let with_tpot = base.push(MetricRecord::TimePerOutputToken(tpot));
                if tpot > 0 {
                    with_tpot.push(MetricRecord::TokensPerSecond((1000u64 / tpot) as u64))
                } else {
                    with_tpot
                }
            } else {
                base
            }
        },
        None => Seq::empty(),
    };
    lat.push(MetricRecord::OutputSequenceLength(tokens as u64))
}

/// `a` plus `n`, capped at the largest `usize`.
pub open spec fn capped_add(a: usize, n: nat) -> usize {
    if a + n <= usize::MAX {
        (a + n) as usize
    } else {
        usize::MAX
    }
}

/// Whether the request's context (all but the token and TTFT accounting) is
/// the same in `a` and `b`.
pub open spec fn same_context(a: StreamContext, b: StreamContext) -> bool {
    &&& a.streaming_response == b.streaming_response
    &&& a.is_chat_completions_request == b.is_chat_completions_request
    &&& a.request_body_sent_time == b.request_body_sent_time
    &&& a.start_time_ns == b.start_time_ns
    &&& a.llm_provider == b.llm_provider
    &&& a.traceparent == b.traceparent
    &&& a.user_prompt == b.user_prompt
}

/// What a streamed chunk `c` does to the turn, from `o` to `f`, with the
/// metrics `ms`: where it holds events, the first of them sets the time to
/// first token unless it is set (and, where no duration is set yet and the
/// clock is not before the start, its duration, which it records), and the events' text is
/// counted in tokens with the encoder of the first event's model; otherwise
/// nothing changes.
pub open spec fn streamed_chunk_effect(
    o: StreamContext,
    f: StreamContext,
    c: Seq<char>,
    now: u64,
    ms: Seq<MetricRecord>,
) -> bool {
    match stream_events(chunk_payloads(c)) {
        Some(ev) => if ev.0.len() > 0 {
            &&& same_context(o, f)
            &&& f.response_tokens == match ev.0[0] {
                Some(m) => match bpe_token_count(encoder_model(m), ev.1) {
                    Some(n) => capped_add(o.response_tokens, n),
                    None => o.response_tokens,
                },
                None => o.response_tokens,
            }
            &&& if o.ttft_time is None {
                &&& f.ttft_time == Some(now)
                &&& if o.ttft_duration_ms is None && elapsed_ms(o.start_time_ns, now) is Some {
                    &&& f.ttft_duration_ms == elapsed_ms(o.start_time_ns, now)
                    &&& ms == seq![MetricRecord::TimeToFirstToken(elapsed_ms(o.start_time_ns, now)->Some_0)]
                } else {
                    &&& f.ttft_duration_ms == o.ttft_duration_ms
                    &&& ms.len() == 0
                }
            } else {
                &&& f.ttft_time == o.ttft_time
                &&& f.ttft_duration_ms == o.ttft_duration_ms
                &&& ms.len() == 0
            }
        } else {
            same_turn_state(o, f) && ms.len() == 0
        },
        None => same_turn_state(o, f) && ms.len() == 0,
    }
}

/// The span attributes: the user prompt, if captured, then the provider's
/// name as the model.
pub open spec fn span_attributes(user_prompt: Option<String>, provider: Option<LlmProvider>) -> Seq<(Seq<char>, Seq<char>)> {
    let a = match user_prompt {
        Some(p) => seq![("user_prompt"@, p@)],
        None => Seq::empty(),
    };
    match provider {
        Some(p) => a.push(("model"@, p.name@)),
        None => a,
    }
}

pub open spec fn span_events_view(e: Seq<(String, u64)>) -> Seq<(Seq<char>, u64)> {
    e.map_values(|p: (String, u64)| (p.0@, p.1))
}

/// The span of a finished turn in state `o` at `now`: where the trace parent
/// is well formed, an `egress_traffic` span from the time the request body was
/// sent to now, under its trace and parent ids, with the span attributes and
/// the time-to-first-token event when that time is set; else none.
pub open spec fn is_turn_span(sp: Option<TraceSpan>, o: StreamContext, now: u64) -> bool {
    match o.traceparent {
        Some(tp) => match traceparent_ids(tp@) {
            Some(ids) => sp is Some && {
                let s = sp->Some_0;
                &&& s.name@ == "egress_traffic"@
                &&& s.trace_id@ == ids.0
                &&& s.parent_id@ == ids.1
                &&& Some(s.start_time_ns) == o.request_body_sent_time
                &&& s.end_time_ns == now
                &&& pairs_view(s.attributes@) == span_attributes(o.user_prompt, o.llm_provider)
                &&& span_events_view(s.events@) == match o.ttft_time {
                    Some(t) => seq![("time_to_first_token"@, t)],
                    None => Seq::empty(),
                }
            },
            None => sp is None,
        },
        None => sp is None,
    }
}

/// Whether the state kept for the turn is the same in `a` and `b`.
pub open spec fn same_turn_state(a: StreamContext, b: StreamContext) -> bool {
    &&& a.response_tokens == b.response_tokens
    &&& a.ttft_time == b.ttft_time
    &&& a.ttft_duration_ms == b.ttft_duration_ms
    &&& a.streaming_response == b.streaming_response
    &&& a.is_chat_completions_request == b.is_chat_completions_request
    &&& a.request_body_sent_time == b.request_body_sent_time
    &&& a.start_time_ns == b.start_time_ns
    &&& a.llm_provider == b.llm_provider
    &&& a.traceparent == b.traceparent
    &&& a.user_prompt == b.user_prompt
}

impl StreamContext {
    fn add_tokens(&mut self, n: u64)
        ensures
            final(self).response_tokens as int == if old(self).response_tokens as int + n as int
                <= usize::MAX as int {
                old(self).response_tokens as int + n as int
            } else {
                usize::MAX as int
            },
            final(self).ttft_time == old(self).ttft_time,
            final(self).ttft_duration_ms == old(self).ttft_duration_ms,
            final(self).streaming_response == old(self).streaming_response,
            final(self).is_chat_completions_request == old(self).is_chat_completions_request,
            final(self).request_body_sent_time == old(self).request_body_sent_time,
            final(self).start_time_ns == old(self).start_time_ns,
            final(self).llm_provider == old(self).llm_provider,
            final(self).traceparent == old(self).traceparent,
            final(self).user_prompt == old(self).user_prompt,
    {
        if n as u128 <= (usize::MAX - self.response_tokens) as u128 {
            self.response_tokens = self.response_tokens + n as usize;
        } else {
            self.response_tokens = usize::MAX;
        }
    }

    /// Accounts a chunk of the reply. `chunk` is the chunk as text, `None`
    /// where it could not be read. At the end of the stream the turn's metrics
    /// and span come out; a streamed chunk is read as events, whose first one
    /// sets the time to first token and whose text is counted in tokens; a
    /// whole reply adds its completion tokens. The terminating event alone is
    /// neither read nor counted.
    pub fn on_http_response_body(
        &mut self,
        body_size: usize,
        end_of_stream: bool,
        chunk: Option<String>,
        now_ns: u64,
    ) -> (r: ResponseOutcome)
        ensures
            final(self).response_tokens >= old(self).response_tokens,
            old(self).ttft_time is Some ==> final(self).ttft_time == old(self).ttft_time,
            old(self).ttft_time is None && final(self).ttft_time is Some ==> final(self).ttft_time == Some(
                now_ns,
            ),
            final(self).request_body_sent_time == old(self).request_body_sent_time,
            final(self).start_time_ns == old(self).start_time_ns,
            final(self).streaming_response == old(self).streaming_response,
            final(self).is_chat_completions_request == old(self).is_chat_completions_request,
            old(self).request_body_sent_time is None || !old(self).is_chat_completions_request ==> same_turn_state(
                *old(self),
                *final(self),
            ) && r.metrics@.len() == 0 && r.span is None,
            old(self).request_body_sent_time is Some && old(self).is_chat_completions_request && end_of_stream
                && body_size == 0 ==> same_turn_state(*old(self), *final(self)) && r.metrics@ == turn_metrics(
                elapsed_ms(old(self).start_time_ns, now_ns),
                old(self).response_tokens,
            ) && is_turn_span(r.span, *old(self), now_ns),
            old(self).request_body_sent_time is Some && old(self).is_chat_completions_request && !(
            end_of_stream && body_size == 0) ==> r.span is None,
            old(self).ttft_time is Some || old(self).ttft_duration_ms is Some ==> final(self).ttft_duration_ms
                == old(self).ttft_duration_ms && forall|i: int|
                0 <= i < r.metrics@.len() ==> !(#[trigger] r.metrics@[i] is TimeToFirstToken),
            old(self).request_body_sent_time is Some && old(self).is_chat_completions_request && !(end_of_stream
                && body_size == 0) && old(self).streaming_response && chunk is Some && chunk->Some_0@
                != "data: [DONE]\n"@ ==> streamed_chunk_effect(
                *old(self),
                *final(self),
                chunk->Some_0@,
                now_ns,
                r.metrics@,
            ),
            old(self).streaming_response && chunk is Some && chunk->Some_0@ == "data: [DONE]\n"@ && !(
            end_of_stream && body_size == 0) ==> same_turn_state(*old(self), *final(self))
                && r.metrics@.len() == 0,
            !(old(self).request_body_sent_time is Some && old(self).is_chat_completions_request && end_of_stream
                && body_size == 0) && (!old(self).streaming_response || chunk is None) ==> same_context(
                *old(self),
                *final(self),
            ) && final(self).ttft_time == old(self).ttft_time && final(self).ttft_duration_ms
                == old(self).ttft_duration_ms && r.metrics@.len() == 0,
            !old(self).streaming_response && chunk is Some && old(self).request_body_sent_time is Some
                && old(self).is_chat_completions_request && !(end_of_stream && body_size == 0) ==> ({
                let before = old(self).response_tokens as int;
                match reply_usage_of(chunk->Some_0@) {
                    Some(Some(n)) => final(self).response_tokens as int == if before + n <= usize::MAX as int {
                        before + n
                    } else {
                        usize::MAX as int
                    },
                    _ => final(self).response_tokens == old(self).response_tokens,
                }
            }),
    {
        let mut out = ResponseOutcome { metrics: Vec::new(), span: None };
        if self.request_body_sent_time.is_none() || !self.is_chat_completions_request {
            return out;
        }
        if end_of_stream && body_size == 0 {
            let latency = if now_ns >= self.start_time_ns {
                Some((now_ns - self.start_time_ns) / 1_000_000)
            } else {
                None
            };
            match latency {
                Some(l) => {
                    out.metrics.push(MetricRecord::RequestLatency(l));
                    if self.response_tokens > 0 {
                        let tpot = l / (self.response_tokens as u64);
                        out.metrics.push(MetricRecord::TimePerOutputToken(tpot));
                        if tpot > 0 {
                            out.metrics.push(MetricRecord::TokensPerSecond(1000 / tpot));
                        }
                    }
                },
                None => {},
            }
            out.metrics.push(MetricRecord::OutputSequenceLength(self.response_tokens as u64));
            assert(out.metrics@ =~= turn_metrics(elapsed_ms(self.start_time_ns, now_ns), self.response_tokens));
            match &self.traceparent {
                Some(tp) => match parse_traceparent(tp.as_str()) {
                    Some((trace_id, parent_id)) => {
                        let mut attributes: Vec<(String, String)> = Vec::new();
                        match &self.user_prompt {
                            Some(p) => attributes.push((String::from_str("user_prompt"), p.clone())),
                            None => {},
                        }
                        match &self.llm_provider {
                            Some(p) => attributes.push((String::from_str("model"), p.name.clone())),
                            None => {},
                        }
                        assert(pairs_view(attributes@) =~= span_attributes(self.user_prompt, self.llm_provider));
                        let mut events: Vec<(String, u64)> = Vec::new();
                        match self.ttft_time {
                            Some(t) => events.push((String::from_str("time_to_first_token"), t)),
                            None => {},
                        }
                        assert(span_events_view(events@) =~= match self.ttft_time {
                            Some(t) => seq![("time_to_first_token"@, t)],
                            None => Seq::empty(),
                        });
                        let start = match self.request_body_sent_time {
                            Some(t) => t,
                            None => 0,
                        };
                        out.span = Some(TraceSpan {
                            name: String::from_str("egress_traffic"),
                            trace_id,
                            parent_id,
                            start_time_ns: start,
                            end_time_ns: now_ns,
                            attributes,
                            events,
                        });
                    },
                    None => {},
                },
                None => {},
            }
            return out;
        }
        let body = match chunk {
            Some(b) => b,
            None => {
                return out;
            },
        };
        if self.streaming_response {
            let done = "data: [DONE]\n";
            if text_eq(body.as_str(), done) {
                return out;
            }
            let events = match parse_stream_events(body.as_str()) {
                Some(ev) => ev,
                None => {
                    return out;
                },
            };
            if events.models.len() == 0 {
                return out;
            }
            if self.ttft_time.is_none() {
                self.ttft_time = Some(now_ns);
                if now_ns >= self.start_time_ns && self.ttft_duration_ms.is_none() {
                    let ms = (now_ns - self.start_time_ns) / 1_000_000;
                    self.ttft_duration_ms = Some(ms);
                    out.metrics.push(MetricRecord::TimeToFirstToken(ms));
                }
            }
            match &events.models[0] {
                Some(model) => match token_count(model.as_str(), events.text.as_str()) {
                    Ok(n) => self.add_tokens(n as u64),
                    Err(_) => {},
                },
                None => {},
            }
        } else {
            match reply_completion_tokens(body.as_str()) {
                Some(Some(n)) => self.add_tokens(n),
                _ => {},
            }
        }
        out
    }
}

} // verus!
