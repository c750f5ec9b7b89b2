//! Turning a tool call's arguments into the request line and body of a call
//! to the developer's endpoint.
use vstd::prelude::*;
use crate::path::{
    expand, missing_value_message, pairs_view, params_view, put, put_pair, replace_params_in_path,
    resolved_target, Parameter,
};
use crate::text::texts_view;

verus! {

/// A tool argument as the function-calling model gave it. Numbers are held as
/// their decimal text; only scalars take part in a request.
pub enum ToolArg {
    Text(String),
    Number(String),
    Bool(bool),
    Null,
    /// A list, a mapping or a tagged value, as its JSON text.
    Compound(String),
}

/// The HTTP method of a developer endpoint.
#[derive(PartialEq, Eq, Structural, Clone, Copy, Debug)]
pub enum HttpMethod {
    Get,
    Post,
}

impl HttpMethod {
    /// The method's name on the wire.
    pub fn as_str(&self) -> (r: &'static str)
        ensures
            r@ == match self {
                HttpMethod::Get => "GET"@,
                HttpMethod::Post => "POST"@,
            },
    {
        match self {
            HttpMethod::Get => "GET",
            HttpMethod::Post => "POST",
        }
    }
}

impl Default for HttpMethod {
    fn default() -> (r: Self)
        ensures
            r == HttpMethod::Get,
    {
        HttpMethod::Get
    }
}

/// The text that a scalar argument stands for in a request, if it is one.
pub open spec fn scalar_text(a: ToolArg) -> Option<Seq<char>> {
    match a {
        ToolArg::Text(s) => Some(s@),
        ToolArg::Number(n) => Some(n@),
        ToolArg::Bool(b) => Some(if b { "true"@ } else { "false"@ }),
        _ => None,
    }
}

/// The scalar arguments, in order, as key/text pairs.
pub open spec fn scalar_args(s: Seq<(String, ToolArg)>) -> Seq<(Seq<char>, Seq<char>)>
    decreases s.len(),
{
    if s.len() == 0 {
        Seq::empty()
    } else {
        let rest = scalar_args(s.drop_last());
        match scalar_text(s.last().1) {
            Some(t) => rest.push((s.last().0@, t)),
            None => rest,
        }
    }
}

pub open spec fn tool_args_view(t: Option<Vec<(String, ToolArg)>>) -> Seq<(Seq<char>, Seq<char>)> {
    match t {
        Some(v) => scalar_args(v@),
        None => Seq::empty(),
    }
}

/// Keeps the string, number and boolean arguments, as text, in order.
pub fn filter_tool_params(tool_params: &Option<Vec<(String, ToolArg)>>) -> (r: Vec<(String, String)>)
    ensures
        pairs_view(r@) == tool_args_view(*tool_params),
{
    let mut out: Vec<(String, String)> = Vec::new();
    match tool_params {
        None => {
            assert(pairs_view(out@) =~= Seq::<(Seq<char>, Seq<char>)>::empty());
            out
        },
        Some(args) => {
            let mut i: usize = 0;
            assert(args@.take(0) =~= Seq::<(String, ToolArg)>::empty());
            assert(pairs_view(out@) =~= Seq::<(Seq<char>, Seq<char>)>::empty());
            while i < args.len()
                invariant
                    i <= args@.len(),
                    pairs_view(out@) == scalar_args(args@.take(i as int)),
                decreases args@.len() - i,
            {
                let key = &args[i].0;
                assert(args@.take(i + 1).drop_last() =~= args@.take(i as int));
                let ghost before = out@;
                match &args[i].1 {
                    ToolArg::Text(s) => out.push((key.clone(), s.clone())),
                    ToolArg::Number(n) => out.push((key.clone(), n.clone())),
                    ToolArg::Bool(b) => {
                        let t = if *b {
                            String::from_str("true")
                        } else {
                            String::from_str("false")
                        };
                        out.push((key.clone(), t));
                    },
                    _ => {},
                }
                assert(pairs_view(out@) =~= scalar_args(args@.take(i + 1)));
                i = i + 1;
            }
            assert(args@.take(i as int) =~= args@);
            out
        },
    }
}

/// `s` cut at every `sep`; an empty text gives one empty piece.
pub open spec fn split_on(s: Seq<char>, sep: char) -> Seq<Seq<char>>
    decreases s.len(),
{
    if s.len() == 0 {
        seq![Seq::empty()]
    } else {
        let parts = split_on(s.drop_last(), sep);
        if s.last() == sep {
            parts.push(Seq::empty())
        } else {
            parts.update(parts.len() - 1, parts.last().push(s.last()))
        }
    }
}

proof fn lemma_split_nonempty(s: Seq<char>, sep: char)
    ensures
        split_on(s, sep).len() >= 1,
    decreases s.len(),
{
    if s.len() > 0 {
        lemma_split_nonempty(s.drop_last(), sep);
    }
}

/// One `key=value` piece of a query string; a piece without `=` has an empty
/// value, and text after a second `=` is dropped.
pub open spec fn query_pair(piece: Seq<char>) -> (Seq<char>, Seq<char>) {
    let kv = split_on(piece, '=');
    (kv[0], if kv.len() > 1 { kv[1] } else { Seq::empty() })
}

/// The pairs of a non-empty query string, in order.
pub open spec fn query_pairs(q: Seq<char>) -> Seq<(Seq<char>, Seq<char>)> {
    split_on(q, '&').map_values(|piece: Seq<char>| query_pair(piece))
}

/// `l` with each pair of `ps` set in turn.
pub open spec fn put_all(l: Seq<(Seq<char>, Seq<char>)>, ps: Seq<(Seq<char>, Seq<char>)>) -> Seq<(Seq<char>, Seq<char>)>
    decreases ps.len(),
{
    if ps.len() == 0 {
        l
    } else {
        let m = put_all(l, ps.drop_last());
        put(m, ps.last().0, ps.last().1)
    }
}

/// The leftover parameters with the pairs of the query string merged in.
pub open spec fn merged_params(lo: Seq<(Seq<char>, Seq<char>)>, q: Seq<char>) -> Seq<(Seq<char>, Seq<char>)> {
    if q.len() == 0 {
        lo
    } else {
        put_all(lo, query_pairs(q))
    }
}

/// Cuts `s` at every `sep`, as `split_on` says.
pub fn split_text(s: &str, sep: char) -> (r: Vec<String>)
    ensures
        texts_view(r@) == split_on(s@, sep),
{
    let n = s.unicode_len();
    let mut parts: Vec<String> = Vec::new();
    let mut cur = String::new();
    let mut i: usize = 0;
    assert(s@.take(0) =~= Seq::<char>::empty());
    while i < n
        invariant
            n == s@.len(),
            i <= n,
            texts_view(parts@).push(cur@) == split_on(s@.take(i as int), sep),
        decreases n - i,
    {
        let c = s.get_char(i);
        assert(s@.take(i + 1).drop_last() =~= s@.take(i as int));
        let ghost before = texts_view(parts@);
        let ghost cur0 = cur@;
        if c == sep {
            let done = cur;
            parts.push(done);
            cur = String::new();
            assert(texts_view(parts@) =~= before.push(cur0));
            assert(texts_view(parts@).push(cur@) =~= before.push(cur0).push(Seq::empty()));
        } else {
            cur.push(c);
            assert(texts_view(parts@).push(cur@) =~= before.push(cur0).update(
                before.len() as int,
                cur0.push(c),
            ));
        }
        i = i + 1;
    }
    assert(s@.take(n as int) =~= s@);
    let ghost before = texts_view(parts@);
    parts.push(cur);
    assert(texts_view(parts@) =~= before.push(cur@));
    parts
}

/// A JSON object whose members are the given keys with string values.
pub uninterp spec fn json_object_text(pairs: Seq<(Seq<char>, Seq<char>)>) -> Seq<char>;

/// Relies on `serde_json`: the pairs become a `serde_json::Map` of string
/// values, written out by `Value`'s `Display` (compact JSON).
#[verifier::external_body]
fn json_object(pairs: &Vec<(String, String)>) -> (r: String)
    ensures
        r@ == json_object_text(pairs_view(pairs@)),
{
    let m: serde_json::Map<String, serde_json::Value> = pairs
        .iter()
        .map(|(k, v)| (k.clone(), serde_json::Value::String(v.clone())))
        .collect();
    serde_json::Value::Object(m).to_string()
}

/// The request line and body that `compute_request_path_body` yields, or the
/// text of its failure: the missing-value text, or the URL parse error.
pub open spec fn path_body_of(
    p: Seq<char>,
    tp: Seq<(Seq<char>, Seq<char>)>,
    d: Seq<(Seq<char>, Option<Seq<char>>)>,
    method: HttpMethod,
) -> Result<(Seq<char>, Option<Seq<char>>), Seq<char>> {
    match expand(p, tp, d) {
        Err(n) => Err(missing_value_message(n)),
        Ok(e) => match resolved_target(e.0) {
            Err(m) => Err(m),
            Ok(pq) => match method {
                HttpMethod::Get => Ok((pq.0.push('?') + pq.1, None)),
                HttpMethod::Post => Ok((pq.0, Some(json_object_text(merged_params(e.1, pq.1))))),
            },
        },
    }
}

/// The path (and, for `GET`, the query string) and the JSON body of a call to a
/// developer endpoint: the path template is filled from the scalar tool
/// arguments; `GET` carries the rest in the query string, `POST` in a JSON
/// object that also takes the pairs of the query string.
pub fn compute_request_path_body(
    endpoint_path: &str,
    tool_params: &Option<Vec<(String, ToolArg)>>,
    prompt_target_params: &[Parameter],
    http_method: &HttpMethod,
) -> (r: Result<(String, Option<String>), String>)
    ensures
        match path_body_of(
            endpoint_path@,
            tool_args_view(*tool_params),
            params_view(prompt_target_params@),
            *http_method,
        ) {
            Ok(pb) => r is Ok && r->Ok_0.0@ == pb.0 && match r->Ok_0.1 {
                Some(b) => pb.1 == Some(b@),
                None => pb.1 is None,
            },
            Err(m) => r is Err && r->Err_0@ == m,
        },
        match expand(endpoint_path@, tool_args_view(*tool_params), params_view(prompt_target_params@)) {
            Err(n) => r is Err && r->Err_0@ == missing_value_message(n),
            Ok(e) => match resolved_target(e.0) {
                Err(m) => r is Err && r->Err_0@ == m,
                Ok(pq) => r is Ok && match http_method {
                    HttpMethod::Get => r->Ok_0.0@ == pq.0.push('?') + pq.1 && r->Ok_0.1 is None,
                    HttpMethod::Post => r->Ok_0.0@ == pq.0 && r->Ok_0.1 is Some
                        && r->Ok_0.1->Some_0@ == json_object_text(merged_params(e.1, pq.1)),
                },
            },
        },
{
    let tool_url_params = filter_tool_params(tool_params);
    let (path_with_params, query_string, additional_params) = match replace_params_in_path(
        endpoint_path,
        &tool_url_params,
        prompt_target_params,
    ) {
        Ok(t) => t,
        Err(e) => return Err(e),
    };
    match http_method {
        HttpMethod::Get => {
            let mut path = path_with_params;
            path.push('?');
            path.append(query_string.as_str());
            Ok((path, None))
        },
        HttpMethod::Post => {
            let mut params = additional_params;
            if query_string.unicode_len() > 0 {
                let pieces = split_text(query_string.as_str(), '&');
                let ghost l0 = pairs_view(params@);
                let ghost qp = query_pairs(query_string@);
                let mut i: usize = 0;
                assert(qp.take(0) =~= Seq::<(Seq<char>, Seq<char>)>::empty());
                while i < pieces.len()
                    invariant
                        i <= pieces@.len(),
                        texts_view(pieces@) == split_on(query_string@, '&'),
                        qp == query_pairs(query_string@),
                        qp.len() == pieces@.len(),
                        pairs_view(params@) == put_all(l0, qp.take(i as int)),
                    decreases pieces@.len() - i,
                {
                    let kv = split_text(pieces[i].as_str(), '=');
                    proof {
                        lemma_split_nonempty(pieces@[i as int]@, '=');
                    }
                    let key = kv[0].clone();
                    let value = if kv.len() > 1 {
                        kv[1].clone()
                    } else {
                        String::new()
                    };
                    assert(qp[i as int] == query_pair(texts_view(pieces@)[i as int]));
                    assert(qp.take(i + 1).drop_last() =~= qp.take(i as int));
                    put_pair(&mut params, key, value);
                    i = i + 1;
                }
                assert(qp.take(i as int) =~= qp);
            }
            let body = json_object(&params);
            Ok((path_with_params, Some(body)))
        },
    }
}

} // verus!
