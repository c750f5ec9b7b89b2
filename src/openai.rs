//! Chat-completion wire types and the server-sent-event framing of streamed
//! replies.
use vstd::prelude::*;
use crate::text::{starts_with, texts_view};
use crate::tools::{split_on, split_text, ToolArg};

verus! {

/// The function that a tool call names, with its arguments.
pub struct FunctionCallDetail {
    pub name: String,
    pub arguments: Option<Vec<(String, ToolArg)>>,
}

/// One tool call of a model reply.
pub struct ToolCall {
    pub id: String,
    pub tool_type: String,
    pub function: FunctionCallDetail,
}

/// A chat message.
pub struct Message {
    pub role: String,
    pub content: Option<String>,
    pub model: Option<String>,
    pub tool_calls: Option<Vec<ToolCall>>,
    pub tool_call_id: Option<String>,
}

/// Streaming options of a request.
#[derive(PartialEq, Eq, Structural, Clone, Copy, Debug)]
pub struct StreamOptions {
    pub include_usage: bool,
}

/// A chat-completion request. `tools` is the tool list as JSON text.
pub struct ChatCompletionsRequest {
    pub model: String,
    pub messages: Vec<Message>,
    pub tools: Option<String>,
    pub stream: bool,
    pub stream_options: Option<StreamOptions>,
    pub metadata: Option<Vec<(String, String)>>,
}

/// One choice of a reply.
pub struct Choice {
    pub index: u32,
    pub message: Message,
    pub finish_reason: Option<String>,
}

/// Token usage of a reply.
#[derive(PartialEq, Eq, Structural, Clone, Copy, Debug)]
pub struct Usage {
    pub prompt_tokens: usize,
    pub completion_tokens: usize,
    pub total_tokens: usize,
}

/// A chat-completion reply; `metadata` holds what the function-calling model
/// adds, such as `function_latency`.
pub struct ChatCompletionsResponse {
    pub model: String,
    pub choices: Vec<Choice>,
    pub usage: Option<Usage>,
    pub metadata: Option<Vec<(String, String)>>,
}

/// One event of a streamed reply: its model and the delta's role and content.
pub struct ChatCompletionStreamResponse {
    pub model: Option<String>,
    pub role: Option<String>,
    pub content: Option<String>,
}

impl ChatCompletionStreamResponse {
    pub fn new(content: Option<String>, role: Option<String>, model: Option<String>) -> (r: Self)
        ensures
            r.content == content,
            r.role == role,
            r.model == model,
    {
        ChatCompletionStreamResponse { model, role, content }
    }
}

/// A tool argument as a kind and a text.
pub open spec fn arg_view(a: ToolArg) -> (nat, Seq<char>) {
    match a {
        ToolArg::Text(s) => (0, s@),
        ToolArg::Number(n) => (1, n@),
        ToolArg::Bool(b) => (2, if b { "true"@ } else { "false"@ }),
        ToolArg::Null => (3, Seq::empty()),
        ToolArg::Compound(j) => (4, j@),
    }
}

pub open spec fn args_view(a: Option<Vec<(String, ToolArg)>>) -> Option<Seq<(Seq<char>, (nat, Seq<char>))>> {
    match a {
        Some(v) => Some(v@.map_values(|p: (String, ToolArg)| (p.0@, arg_view(p.1)))),
        None => None,
    }
}

/// A tool call as plain values.
pub open spec fn tool_call_view(t: ToolCall) -> (Seq<char>, Seq<char>, Seq<char>, Option<Seq<(Seq<char>, (nat, Seq<char>))>>) {
    (t.id@, t.tool_type@, t.function.name@, args_view(t.function.arguments))
}

pub open spec fn tool_calls_view(v: Seq<ToolCall>) -> Seq<(Seq<char>, Seq<char>, Seq<char>, Option<Seq<(Seq<char>, (nat, Seq<char>))>>)> {
    v.map_values(|t: ToolCall| tool_call_view(t))
}

impl ToolArg {
    /// A copy of this argument.
    pub fn copy(&self) -> (r: ToolArg)
        ensures
            arg_view(r) == arg_view(*self),
    {
        match self {
            ToolArg::Text(s) => ToolArg::Text(s.clone()),
            ToolArg::Number(n) => ToolArg::Number(n.clone()),
            ToolArg::Bool(b) => ToolArg::Bool(*b),
            ToolArg::Null => ToolArg::Null,
            ToolArg::Compound(j) => ToolArg::Compound(j.clone()),
        }
    }
}

fn copy_args(a: &Option<Vec<(String, ToolArg)>>) -> (r: Option<Vec<(String, ToolArg)>>)
    ensures
        args_view(r) == args_view(*a),
{
    match a {
        None => None,
        Some(v) => {
            let mut out: Vec<(String, ToolArg)> = Vec::new();
            let mut i: usize = 0;
            while i < v.len()
                invariant
                    i <= v@.len(),
                    out@.len() == i,
                    forall|j: int| 0 <= j < i ==> out@[j].0@ == v@[j].0@ && arg_view(out@[j].1) == arg_view(v@[j].1),
                decreases v@.len() - i,
            {
                out.push((v[i].0.clone(), v[i].1.copy()));
                i = i + 1;
            }
            assert(args_view(Some(out)) ->Some_0 =~= args_view(*a)->Some_0);
            Some(out)
        },
    }
}

impl ToolCall {
    /// A copy of this tool call.
    pub fn copy(&self) -> (r: ToolCall)
        ensures
            tool_call_view(r) == tool_call_view(*self),
    {
        ToolCall {
            id: self.id.clone(),
            tool_type: self.tool_type.clone(),
            function: FunctionCallDetail {
                name: self.function.name.clone(),
                arguments: copy_args(&self.function.arguments),
            },
        }
    }
}

/// A copy of a list of tool calls.
pub fn copy_tool_calls(v: &Vec<ToolCall>) -> (r: Vec<ToolCall>)
    ensures
        tool_calls_view(r@) == tool_calls_view(v@),
{
    let mut out: Vec<ToolCall> = Vec::new();
    let mut i: usize = 0;
    while i < v.len()
        invariant
            i <= v@.len(),
            out@.len() == i,
            forall|j: int| 0 <= j < i ==> tool_call_view(out@[j]) == tool_call_view(v@[j]),
        decreases v@.len() - i,
    {
        out.push(v[i].copy());
        i = i + 1;
    }
    assert(tool_calls_view(out@) =~= tool_calls_view(v@));
    out
}

/// The framing of one event: `data: <json>` and a blank line.
pub open spec fn event_frame(json: Seq<char>) -> Seq<char> {
    "data: "@ + json + "\n\n"@
}

/// The frames of `jsons`, in order.
pub open spec fn event_frames(jsons: Seq<Seq<char>>) -> Seq<char>
    decreases jsons.len(),
{
    if jsons.len() == 0 {
        Seq::empty()
    } else {
        event_frames(jsons.drop_last()) + event_frame(jsons.last())
    }
}

/// The terminating event of a stream.
pub open spec fn done_frame() -> Seq<char> {
    "data: [DONE]\n"@
}

/// Frames the given event payloads and terminates the stream.
pub fn to_server_events(jsons: &Vec<String>) -> (r: String)
    ensures
        r@ == event_frames(texts_view(jsons@)) + done_frame(),
{
    let mut out = String::new();
    let mut i: usize = 0;
    let ghost js = texts_view(jsons@);
    assert(js.take(0) =~= Seq::<Seq<char>>::empty());
    while i < jsons.len()
        invariant
            i <= jsons@.len(),
            js == texts_view(jsons@),
            out@ == event_frames(js.take(i as int)),
        decreases jsons@.len() - i,
    {
        assert(js.take(i + 1).drop_last() =~= js.take(i as int));
        out.append("data: ");
        out.append(jsons[i].as_str());
        out.append("\n\n");
        assert(out@ =~= event_frames(js.take(i as int)) + event_frame(js[i as int]));
        i = i + 1;
    }
    assert(js.take(i as int) =~= js);
    out.append("data: [DONE]\n");
    out
}

/// A line that carries an event's JSON: it starts with `data: ` and is not the
/// terminating event.
pub open spec fn is_data_line(line: Seq<char>) -> bool {
    &&& 6 <= line.len()
    &&& line.take(6) == "data: "@
    &&& !(12 <= line.len() && line.take(12) == "data: [DONE]"@)
}

/// The JSON payloads of the data lines of a streamed chunk, in order.
pub open spec fn data_payloads(lines: Seq<Seq<char>>) -> Seq<Seq<char>>
    decreases lines.len(),
{
    if lines.len() == 0 {
        Seq::empty()
    } else {
        let rest = data_payloads(lines.drop_last());
        if is_data_line(lines.last()) {
            rest.push(lines.last().skip(6))
        } else {
            rest
        }
    }
}

/// The JSON payloads of the events in a streamed chunk.
pub open spec fn chunk_payloads(body: Seq<char>) -> Seq<Seq<char>> {
    data_payloads(split_on(body, '\n'))
}

/// The model and delta content of one streamed event, or `None` where the
/// payload is not JSON.
pub uninterp spec fn stream_event_of(json: Seq<char>) -> Option<(Option<Seq<char>>, Seq<char>)>;

/// Relies on `serde_json::from_str` into a `serde_json::Value`, then on
/// `Value::get("model")` and `Value::pointer("/choices/0/delta/content")` read as
/// strings (an absent content reads as empty).
#[verifier::external_body]
fn stream_event_fields(json: &str) -> (r: Option<(Option<String>, String)>)
    ensures
        match r {
            Some(f) => stream_event_of(json@) == Some((
                match f.0 {
                    Some(m) => Some(m@),
                    None => None,
                },
                f.1@,
            )),
            None => stream_event_of(json@) is None,
        },
{
    let v: serde_json::Value = serde_json::from_str(json).ok()?;
    let model = v.get("model").and_then(|m| m.as_str()).map(|m| m.to_string());
    let content = v.pointer("/choices/0/delta/content").and_then(|c| c.as_str()).unwrap_or("");
    Some((model, content.to_string()))
}

/// The events of a streamed chunk: the model of the first event and the
/// delta contents joined; `None` where an event is not JSON.
pub open spec fn stream_events(payloads: Seq<Seq<char>>) -> Option<(Seq<Option<Seq<char>>>, Seq<char>)>
    decreases payloads.len(),
{
    if payloads.len() == 0 {
        Some((Seq::empty(), Seq::empty()))
    } else {
        match stream_events(payloads.drop_last()) {
            None => None,
            Some(acc) => match stream_event_of(payloads.last()) {
                None => None,
                Some(ev) => Some((acc.0.push(ev.0), acc.1 + ev.1)),
            },
        }
    }
}

/// The events of a streamed chunk.
pub struct StreamEvents {
    /// The model named by each event, in order.
    pub models: Vec<Option<String>>,
    /// The delta contents of all events, joined.
    pub text: String,
}

pub open spec fn models_view(v: Seq<Option<String>>) -> Seq<Option<Seq<char>>> {
    v.map_values(|m: Option<String>| match m {
        Some(s) => Some(s@),
        None => None,
    })
}

/// Reads the events of a streamed chunk: the data lines are taken in order,
/// and each payload is read as JSON. `None` where one is not JSON.
pub fn parse_stream_events(body: &str) -> (r: Option<StreamEvents>)
    ensures
        match stream_events(chunk_payloads(body@)) {
            None => r is None,
            Some(ev) => r is Some && models_view(r->Some_0.models@) == ev.0 && r->Some_0.text@ == ev.1,
        },
{
    let lines = split_text(body, '\n');
    let ghost ls = texts_view(lines@);
    let mut models: Vec<Option<String>> = Vec::new();
    let mut text = String::new();
    let mut payloads: Vec<String> = Vec::new();
    let mut i: usize = 0;
    assert(ls.take(0) =~= Seq::<Seq<char>>::empty());
    assert(texts_view(payloads@) =~= Seq::<Seq<char>>::empty());
    while i < lines.len()
        invariant
            i <= lines@.len(),
            ls == texts_view(lines@),
            texts_view(payloads@) == data_payloads(ls.take(i as int)),
        decreases lines@.len() - i,
    {
        assert(ls.take(i + 1).drop_last() =~= ls.take(i as int));
        let line = lines[i].as_str();
        let data = "data: ";
        let done = "data: [DONE]";
        proof {
            reveal_strlit("data: ");
            reveal_strlit("data: [DONE]");
        }
        if starts_with(line, data) && !starts_with(line, done) {
            let n = line.unicode_len();
            let payload = line.substring_char(6, n);
            let ghost before = texts_view(payloads@);
            payloads.push(String::from_str(payload));
            assert(texts_view(payloads@) =~= before.push(ls[i as int].skip(6)));
        }
        i = i + 1;
    }
    assert(ls.take(i as int) =~= ls);
    let ghost ps = texts_view(payloads@);
    assert(ps == chunk_payloads(body@));
    let mut j: usize = 0;
    assert(ps.take(0) =~= Seq::<Seq<char>>::empty());
    assert(models_view(models@) =~= Seq::<Option<Seq<char>>>::empty());
    while j < payloads.len()
        invariant
            j <= payloads@.len(),
            ps == texts_view(payloads@),
            ps == chunk_payloads(body@),
            stream_events(ps.take(j as int)) == Some((models_view(models@), text@)),
        decreases payloads@.len() - j,
    {
        assert(ps.take(j + 1).drop_last() =~= ps.take(j as int));
        match stream_event_fields(payloads[j].as_str()) {
            None => {
                proof {
                    assert(ps.take(j + 1).last() == ps[j as int]);
                    assert(stream_events(ps.take(j + 1)) is None);
                    lemma_stream_events_none(ps, j + 1);
                }
                return None;
            },
            Some(f) => {
                let ghost before = models_view(models@);
                models.push(f.0);
                text.append(f.1.as_str());
                assert(models_view(models@) =~= before.push(
                    match f.0 {
                        Some(m) => Some(m@),
                        None => None,
                    },
                ));
            },
        }
        j = j + 1;
    }
    assert(ps.take(j as int) =~= ps);
    Some(StreamEvents { models, text })
}

proof fn lemma_stream_events_none(ps: Seq<Seq<char>>, n: int)
    requires
        0 <= n <= ps.len(),
        stream_events(ps.take(n)) is None,
    ensures
        stream_events(ps) is None,
    decreases ps.len(),
{
    if n < ps.len() {
        assert(ps.drop_last().take(n) =~= ps.take(n));
        lemma_stream_events_none(ps.drop_last(), n);
    } else {
        assert(ps.take(n) =~= ps);
    }
}

/// The completion-token count of a non-streamed reply: `None` where the text
/// is not JSON, `Some(None)` where it has no such count.
pub uninterp spec fn reply_usage_of(json: Seq<char>) -> Option<Option<nat>>;

/// Relies on `serde_json::from_str` into a `serde_json::Value`, then on
/// `Value::pointer("/usage/completion_tokens")` read by `Value::as_u64`.
#[verifier::external_body]
pub(crate) fn reply_completion_tokens(json: &str) -> (r: Option<Option<u64>>)
    ensures
        match r {
            Some(Some(n)) => reply_usage_of(json@) == Some(Some(n as nat)),
            Some(None) => reply_usage_of(json@) == Some(None::<nat>),
            None => reply_usage_of(json@) is None,
        },
{
    let v: serde_json::Value = serde_json::from_str(json).ok()?;
    Some(v.pointer("/usage/completion_tokens").and_then(|n| n.as_u64()))
}

} // verus!
