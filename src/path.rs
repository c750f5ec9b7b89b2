//! Endpoint path templating: `{name}` placeholders are filled from the tool
//! arguments, and the arguments and parameter defaults that no placeholder
//! used are carried into the query string.
use vstd::prelude::*;
use vstd::utf8::encode_utf8;
use crate::text::{contains_char, contains_text, has_char, text_eq, texts_view};

verus! {

/// A parameter declared by a prompt target. Only `name` and `default` take
/// part in templating.
pub struct Parameter {
    pub name: String,
    pub parameter_type: Option<String>,
    pub description: String,
    pub required: Option<bool>,
    pub enum_values: Option<Vec<String>>,
    pub default: Option<String>,
    pub in_path: Option<bool>,
    pub format: Option<String>,
}

/// Key/value pairs as character sequences.
pub open spec fn pairs_view(s: Seq<(String, String)>) -> Seq<(Seq<char>, Seq<char>)> {
    s.map_values(|p: (String, String)| (p.0@, p.1@))
}

/// The value of the first pair whose key is `k`.
pub open spec fn lookup(tp: Seq<(Seq<char>, Seq<char>)>, k: Seq<char>) -> Option<Seq<char>>
    decreases tp.len(),
{
    if tp.len() == 0 {
        None
    } else {
        match lookup(tp.drop_last(), k) {
            Some(v) => Some(v),
            None => if tp.last().0 == k {
                Some(tp.last().1)
            } else {
                None
            },
        }
    }
}

/// Whether some pair has key `k`.
pub open spec fn has_key(tp: Seq<(Seq<char>, Seq<char>)>, k: Seq<char>) -> bool {
    exists|i: int| 0 <= i < tp.len() && tp[i].0 == k
}

/// A byte that percent-encoding leaves as it is.
pub open spec fn is_unreserved_byte(b: u8) -> bool {
    (48 <= b <= 57) || (65 <= b <= 90) || (97 <= b <= 122) || b == 45 || b == 46 || b == 95
        || b == 126
}

/// Upper-case hexadecimal digit for `d < 16`.
pub open spec fn hex_digit(d: u8) -> char {
    if d < 10 {
        (48 + d) as char
    } else {
        (55 + d) as char
    }
}

/// One byte, percent-encoded.
pub open spec fn encode_byte(b: u8) -> Seq<char> {
    if is_unreserved_byte(b) {
        seq![b as char]
    } else {
        seq!['%', hex_digit(b / 16), hex_digit(b % 16)]
    }
}

pub open spec fn encode_bytes(bs: Seq<u8>) -> Seq<char>
    decreases bs.len(),
{
    if bs.len() == 0 {
        Seq::empty()
    } else {
        encode_bytes(bs.drop_last()) + encode_byte(bs.last())
    }
}

/// `application/x-www-form-urlencoded` percent-encoding of the UTF-8 bytes of
/// `s`: every byte but ASCII letters, digits and `-._~` becomes `%XY`.
pub open spec fn percent_encoded(s: Seq<char>) -> Seq<char> {
    encode_bytes(encode_utf8(s))
}

/// Relies on `urlencoding::encode`: percent-encodes every byte of the UTF-8
/// text except alphanumerics and `-`, `_`, `.`, `~`, with upper-case hex digits.
#[verifier::external_body]
fn url_encode(s: &str) -> (r: String)
    ensures
        r@ == percent_encoded(s@),
{
    urlencoding::encode(s).into_owned()
}

/// Path and query of the URL that results from resolving a request target
/// against the origin `http://dummy.com`, or the text of the parse error where
/// resolution fails.
pub uninterp spec fn resolved_target(target: Seq<char>) -> Result<(Seq<char>, Seq<char>), Seq<char>>;

/// Whether every `{` or `}` of `t` comes after a `?` or `#`, so that none
/// stands in the path part of `t`.
pub open spec fn braces_after_query(t: Seq<char>) -> bool {
    forall|i: int|
        0 <= i < t.len() && (t[i] == '{' || t[i] == '}') ==> exists|j: int|
            0 <= j < i && (#[trigger] t[j] == '?' || t[j] == '#')
}

/// Relies on `url::Url::join` against the base `http://dummy.com`, then on
/// `Url::path` and `Url::query` (an absent query reads as empty). The path
/// comes from the part of the target before its first `?` or `#` (and the
/// base's `/`), so where that part has no brace the path has none either.
#[verifier::external_body]
fn resolve_target(target: &str) -> (r: Result<(String, String), String>)
    ensures
        match r {
            Ok(pq) => resolved_target(target@) == Ok::<(Seq<char>, Seq<char>), Seq<char>>((pq.0@, pq.1@)) && (braces_after_query(target@)
                ==> !has_char(pq.0@, '{') && !has_char(pq.0@, '}')),
            Err(e) => resolved_target(target@) == Err::<(Seq<char>, Seq<char>), Seq<char>>(e@),
        },
{
    let base = url::Url::parse("http://dummy.com").unwrap();
    match base.join(target) {
        Ok(u) => Ok((u.path().to_string(), u.query().unwrap_or("").to_string())),
        Err(e) => Err(e.to_string()),
    }
}

/// The state of a left-to-right scan of a template: the text produced so
/// far, the placeholder name being read, whether a placeholder is open, and
/// the names substituted so far.
pub type ScanState = (Seq<char>, Seq<char>, bool, Seq<Seq<char>>);

/// One character of the template scan. `{` opens a placeholder; `}` closes
/// it and substitutes the percent-encoded value of the name read, or fails
/// with that name; other characters extend the open name or the output.
pub open spec fn scan_step(
    st: ScanState,
    c: char,
    tp: Seq<(Seq<char>, Seq<char>)>,
) -> Result<ScanState, Seq<char>> {
    let (acc, name, in_param, used) = st;
    if c == '{' {
        Ok((acc, name, true, used))
    } else if c == '}' {
        match lookup(tp, name) {
            Some(v) => Ok((acc + percent_encoded(v), Seq::empty(), false, used.push(name))),
            None => Err(name),
        }
    } else if in_param {
        Ok((acc, name.push(c), true, used))
    } else {
        Ok((acc.push(c), name, false, used))
    }
}

/// The scan of the whole template `p`, or the first name without a value.
pub open spec fn scan(p: Seq<char>, tp: Seq<(Seq<char>, Seq<char>)>) -> Result<ScanState, Seq<char>>
    decreases p.len(),
{
    if p.len() == 0 {
        Ok((Seq::empty(), Seq::empty(), false, Seq::empty()))
    } else {
        match scan(p.drop_last(), tp) {
            Ok(st) => scan_step(st, p.last(), tp),
            Err(n) => Err(n),
        }
    }
}

/// `a` followed by `k=v`, introduced by `?` if `a` has no query yet, else by `&`.
pub open spec fn with_query_pair(a: Seq<char>, k: Seq<char>, v: Seq<char>) -> Seq<char> {
    let sep = if has_char(a, '?') { '&' } else { '?' };
    a.push(sep) + k + seq!['='] + v
}

/// `l` with the value of key `k` set to `v`: entries with key `k` are
/// overwritten, or the pair is added at the end.
pub open spec fn put(l: Seq<(Seq<char>, Seq<char>)>, k: Seq<char>, v: Seq<char>) -> Seq<(Seq<char>, Seq<char>)> {
    if has_key(l, k) {
        l.map_values(|p: (Seq<char>, Seq<char>)| if p.0 == k { (k, v) } else { p })
    } else {
        l.push((k, v))
    }
}

/// Output text, names used, and leftover parameters.
pub type RestState = (Seq<char>, Seq<Seq<char>>, Seq<(Seq<char>, Seq<char>)>);

/// Appends the tool arguments that no placeholder used, in order, each key once.
pub open spec fn tool_rest(tp: Seq<(Seq<char>, Seq<char>)>, st: RestState) -> RestState
    decreases tp.len(),
{
    if tp.len() == 0 {
        st
    } else {
        let (a, u, l) = tool_rest(tp.drop_last(), st);
        let (k, v) = tp.last();
        if u.contains(k) {
            (a, u, l)
        } else {
            (with_query_pair(a, k, percent_encoded(v)), u.push(k), put(l, k, percent_encoded(v)))
        }
    }
}

/// A declared parameter as its name and default.
pub open spec fn param_view(p: Parameter) -> (Seq<char>, Option<Seq<char>>) {
    (p.name@, match p.default {
        Some(d) => Some(d@),
        None => None,
    })
}

pub open spec fn params_view(d: Seq<Parameter>) -> Seq<(Seq<char>, Option<Seq<char>>)> {
    d.map_values(|p: Parameter| param_view(p))
}

/// Appends the non-empty defaults of the declared parameters whose names were
/// not used, in declared order.
pub open spec fn default_rest(d: Seq<(Seq<char>, Option<Seq<char>>)>, st: RestState) -> RestState
    decreases d.len(),
{
    if d.len() == 0 {
        st
    } else {
        let (a, u, l) = default_rest(d.drop_last(), st);
        let (name, def) = d.last();
        match def {
            Some(v) => if v.len() > 0 && !u.contains(name) {
                (with_query_pair(a, name, v), u, put(l, name, v))
            } else {
                (a, u, l)
            },
            None => (a, u, l),
        }
    }
}

/// The request target that templating produces before URL resolution, with the
/// leftover parameters; or the name of the first placeholder without a value.
pub open spec fn expand(
    p: Seq<char>,
    tp: Seq<(Seq<char>, Seq<char>)>,
    d: Seq<(Seq<char>, Option<Seq<char>>)>,
) -> Result<(Seq<char>, Seq<(Seq<char>, Seq<char>)>), Seq<char>> {
    match scan(p, tp) {
        Err(n) => Err(n),
        Ok(st) => {
            let s2 = tool_rest(tp, (st.0, st.3, Seq::empty()));
            let s3 = default_rest(d, s2);
            Ok((s3.0, s3.2))
        },
    }
}

/// The error text for a placeholder without a value.
pub open spec fn missing_value_message(name: Seq<char>) -> Seq<char> {
    "Missing value for parameter `"@ + name + "`"@
}

/// The value of the first pair with key `k`.
pub(crate) fn find_value<'a>(tp: &'a Vec<(String, String)>, k: &str) -> (r: Option<&'a String>)
    ensures
        match r {
            Some(v) => lookup(pairs_view(tp@), k@) == Some(v@),
            None => lookup(pairs_view(tp@), k@) is None,
        },
{
    let ghost pv = pairs_view(tp@);
    let mut i: usize = 0;
    while i < tp.len()
        invariant
            i <= tp@.len(),
            pv == pairs_view(tp@),
            lookup(pv.take(i as int), k@) is None,
        decreases tp@.len() - i,
    {
        assert(pv.take(i + 1).drop_last() =~= pv.take(i as int));
        if text_eq(tp[i].0.as_str(), k) {
            proof {
                lemma_lookup_prefix(pv, i + 1, k@);
            }
            return Some(&tp[i].1);
        }
        i = i + 1;
    }
    assert(pv.take(i as int) =~= pv);
    None
}

/// Sets key `k` to `v` in `l`, as `put` says.
pub(crate) fn put_pair(l: &mut Vec<(String, String)>, k: String, v: String)
    ensures
        pairs_view(final(l)@) == put(pairs_view(old(l)@), k@, v@),
{
    let ghost old_l = l@;
    let ghost orig = pairs_view(l@);
    let mut found = false;
    let mut i: usize = 0;
    while i < l.len()
        invariant
            i <= l@.len(),
            l@.len() == old_l.len(),
            orig == pairs_view(old_l),
            forall|j: int| 0 <= j < i ==> if old_l[j].0@ == k@ {
                l@[j].0@ == k@ && l@[j].1@ == v@
            } else {
                l@[j] == old_l[j]
            },
            forall|j: int| i <= j < l@.len() ==> l@[j] == old_l[j],
            found == exists|j: int| 0 <= j < i && old_l[j].0@ == k@,
        decreases l@.len() - i,
    {
        let ghost was = found;
        let hit = text_eq(l[i].0.as_str(), k.as_str());
        if hit {
            l.set(i, (k.clone(), v.clone()));
            found = true;
        }
        proof {
            if was {
                let j = choose|j: int| 0 <= j < i && old_l[j].0@ == k@;
                assert(0 <= j < i + 1 && old_l[j].0@ == k@);
            } else if hit {
                assert(old_l[i as int].0@ == k@);
            } else {
                assert forall|j: int| 0 <= j < i + 1 implies !(old_l[j].0@ == k@) by {
                    if j == i {
                        assert(old_l[j].0@ != k@);
                    }
                }
            }
        }
        i = i + 1;
    }
    if !found {
        assert(l@ =~= old_l);
        assert(!has_key(orig, k@)) by {
            if has_key(orig, k@) {
                let j = choose|j: int| 0 <= j < orig.len() && #[trigger] orig[j].0 == k@;
                assert(old_l[j].0@ == k@);
            }
        }
        l.push((k, v));
        assert(pairs_view(l@) =~= orig.push((k@, v@)));
    } else {
        proof {
            let j = choose|j: int| 0 <= j < i && old_l[j].0@ == k@;
            assert(orig[j].0 == k@);
        }
        assert(pairs_view(l@) =~= orig.map_values(
            |p: (Seq<char>, Seq<char>)| if p.0 == k@ { (k@, v@) } else { p },
        ));
    }
}

/// Appends `k=v` to `acc`, introduced by `?` or `&` as `with_query_pair` says.
fn push_query_pair(acc: &mut String, k: &str, v: &str)
    ensures
        final(acc)@ == with_query_pair(old(acc)@, k@, v@),
{
    if contains_char(acc.as_str(), '?') {
        acc.push('&');
    } else {
        acc.push('?');
    }
    acc.append(k);
    acc.push('=');
    acc.append(v);
}

/// Substitutes the placeholders of `path` from `tool_params`, then carries
/// the tool arguments that no placeholder used (percent-encoded) and the
/// non-empty defaults of the undeclared-in-path parameters into the query
/// string. Returns the resolved path, the query string and the leftover
/// parameters; fails on the first placeholder without a value. The
/// leftovers are those of `expand`, of which `law_leftovers_exactly_once`
/// states that each unused value is there exactly once, and
/// `law_template_idempotent` that templating a returned path again changes it
/// no more before URL resolution.
pub fn replace_params_in_path(
    path: &str,
    tool_params: &Vec<(String, String)>,
    prompt_target_params: &[Parameter],
) -> (r: Result<(String, String, Vec<(String, String)>), String>)
    ensures
        r is Ok ==> !has_char(r->Ok_0.0@, '{') && !has_char(r->Ok_0.0@, '}'),
        match expand(path@, pairs_view(tool_params@), params_view(prompt_target_params@)) {
            Err(n) => r is Err && r->Err_0@ == missing_value_message(n),
            Ok(e) => match resolved_target(e.0) {
                Ok(pq) => r is Ok && r->Ok_0.0@ == pq.0 && r->Ok_0.1@ == pq.1
                    && pairs_view(r->Ok_0.2@) == e.1,
                Err(m) => r is Err && r->Err_0@ == m,
            },
        },
{
    let ghost tp = pairs_view(tool_params@);
    let ghost d = params_view(prompt_target_params@);
    let mut acc = String::new();
    let mut name = String::new();
    let mut in_param = false;
    let mut used: Vec<String> = Vec::new();
    let n = path.unicode_len();
    let mut i: usize = 0;
    assert(path@.take(0) =~= Seq::<char>::empty());
    assert(texts_view(used@) =~= Seq::<Seq<char>>::empty());
    while i < n
        invariant
            n == path@.len(),
            i <= n,
            tp == pairs_view(tool_params@),
            scan(path@.take(i as int), tp) == Ok::<ScanState, Seq<char>>(
                (acc@, name@, in_param, texts_view(used@)),
            ),
        decreases n - i,
    {
        let c = path.get_char(i);
        assert(path@.take(i + 1).drop_last() =~= path@.take(i as int));
        assert(path@.take(i + 1).last() == c);
        if c == '{' {
            in_param = true;
        } else if c == '}' {
            in_param = false;
            match find_value(tool_params, name.as_str()) {
                Some(v) => {
                    let e = url_encode(v.as_str());
                    acc.append(e.as_str());
                    let ghost before = used@;
                    let ghost nm = name@;
                    used.push(name);
                    name = String::new();
                    assert(texts_view(used@) =~= texts_view(before).push(nm));
                },
                None => {
                    proof {
                        lemma_scan_err_sticks(path@, tp, i + 1);
                    }
                    let mut msg = String::from_str("Missing value for parameter `");
                    msg.append(name.as_str());
                    msg.append("`");
                    return Err(msg);
                },
            }
        } else if in_param {
            name.push(c);
        } else {
            acc.push(c);
        }
        i = i + 1;
    }
    assert(path@.take(n as int) =~= path@);
    let ghost st = (acc@, texts_view(used@), Seq::<(Seq<char>, Seq<char>)>::empty());
    let mut lo: Vec<(String, String)> = Vec::new();
    let mut j: usize = 0;
    assert(tp.take(0) =~= Seq::<(Seq<char>, Seq<char>)>::empty());
    while j < tool_params.len()
        invariant
            j <= tool_params@.len(),
            tp == pairs_view(tool_params@),
            tool_rest(tp.take(j as int), st) == (acc@, texts_view(used@), pairs_view(lo@)),
        decreases tool_params@.len() - j,
    {
        let k = &tool_params[j].0;
        let v = &tool_params[j].1;
        assert(tp.take(j + 1).drop_last() =~= tp.take(j as int));
        assert(tp.take(j + 1).last() == (k@, v@));
        if !contains_text(&used, k.as_str()) {
            let e = url_encode(v.as_str());
            push_query_pair(&mut acc, k.as_str(), e.as_str());
            let ghost before = used@;
            used.push(k.clone());
            put_pair(&mut lo, k.clone(), e);
            assert(texts_view(used@) =~= texts_view(before).push(k@));
        }
        j = j + 1;
    }
    assert(tp.take(j as int) =~= tp);
    let ghost st2 = (acc@, texts_view(used@), pairs_view(lo@));
    let mut j: usize = 0;
    assert(d.take(0) =~= Seq::<(Seq<char>, Option<Seq<char>>)>::empty());
    while j < prompt_target_params.len()
        invariant
            j <= prompt_target_params@.len(),
            d == params_view(prompt_target_params@),
            default_rest(d.take(j as int), st2) == (acc@, texts_view(used@), pairs_view(lo@)),
        decreases prompt_target_params@.len() - j,
    {
        let p = &prompt_target_params[j];
        assert(d.take(j + 1).drop_last() =~= d.take(j as int));
        assert(d.take(j + 1).last() == param_view(*p));
        match &p.default {
            Some(dv) => {
                if dv.unicode_len() > 0 && !contains_text(&used, p.name.as_str()) {
                    push_query_pair(&mut acc, p.name.as_str(), dv.as_str());
                    put_pair(&mut lo, p.name.clone(), dv.clone());
                }
            },
            None => {},
        }
        j = j + 1;
    }
    assert(d.take(j as int) =~= d);
    proof {
        lemma_expand_target_clean(path@, tp, d);
    }
    match resolve_target(acc.as_str()) {
        Ok(pq) => Ok((pq.0, pq.1, lo)),
        Err(e) => Err(e),
    }
}

/// Once the scan fails it stays failed.
proof fn lemma_scan_err_sticks(p: Seq<char>, tp: Seq<(Seq<char>, Seq<char>)>, n: int)
    requires
        0 <= n <= p.len(),
        scan(p.take(n), tp) is Err,
    ensures
        scan(p, tp) == scan(p.take(n), tp),
    decreases p.len(),
{
    if n < p.len() {
        assert(p.drop_last().take(n) =~= p.take(n));
        lemma_scan_err_sticks(p.drop_last(), tp, n);
    } else {
        assert(p.take(n) =~= p);
    }
}

/// A value found in a prefix of the pairs is the value found in all of them.
proof fn lemma_lookup_prefix(s: Seq<(Seq<char>, Seq<char>)>, n: int, k: Seq<char>)
    requires
        0 <= n <= s.len(),
        lookup(s.take(n), k) is Some,
    ensures
        lookup(s, k) == lookup(s.take(n), k),
    decreases s.len(),
{
    if n < s.len() {
        assert(s.drop_last().take(n) =~= s.take(n));
        lemma_lookup_prefix(s.drop_last(), n, k);
    } else {
        assert(s.take(n) =~= s);
    }
}

/// The placeholder names of a template, in order, as the scan reads them,
/// with the name being read and whether a placeholder is open.
pub open spec fn placeholder_scan(p: Seq<char>) -> (Seq<char>, bool, Seq<Seq<char>>)
    decreases p.len(),
{
    if p.len() == 0 {
        (Seq::empty(), false, Seq::empty())
    } else {
        let (name, in_param, names) = placeholder_scan(p.drop_last());
        let c = p.last();
        if c == '{' {
            (name, true, names)
        } else if c == '}' {
            (Seq::empty(), false, names.push(name))
        } else if in_param {
            (name.push(c), true, names)
        } else {
            (name, false, names)
        }
    }
}

/// The names of the placeholders of `p`.
pub open spec fn placeholders(p: Seq<char>) -> Seq<Seq<char>> {
    placeholder_scan(p).2
}

/// No key occurs twice.
pub open spec fn unique_keys(l: Seq<(Seq<char>, Seq<char>)>) -> bool {
    forall|i: int, j: int| 0 <= i < j < l.len() ==> l[i].0 != l[j].0
}

/// No parameter name is declared twice.
pub open spec fn distinct_names(d: Seq<(Seq<char>, Option<Seq<char>>)>) -> bool {
    forall|i: int, j: int| 0 <= i < j < d.len() ==> d[i].0 != d[j].0
}

/// The default of `e` is carried: it is non-empty and its name is neither a
/// placeholder of `p` nor a key of `tp`.
pub open spec fn default_carried(
    e: (Seq<char>, Option<Seq<char>>),
    p: Seq<char>,
    tp: Seq<(Seq<char>, Seq<char>)>,
) -> bool {
    &&& e.1 is Some
    &&& e.1->Some_0.len() > 0
    &&& !placeholders(p).contains(e.0)
    &&& !has_key(tp, e.0)
}

pub(crate) proof fn lemma_lookup_has_key(s: Seq<(Seq<char>, Seq<char>)>, k: Seq<char>)
    ensures
        lookup(s, k) is Some <==> has_key(s, k),
    decreases s.len(),
{
    if s.len() > 0 {
        lemma_lookup_has_key(s.drop_last(), k);
        if has_key(s, k) {
            let i = choose|i: int| 0 <= i < s.len() && #[trigger] s[i].0 == k;
            if i < s.len() - 1 {
                assert(s.drop_last()[i].0 == k);
            }
        }
        if has_key(s.drop_last(), k) {
            let i = choose|i: int| 0 <= i < s.drop_last().len() && #[trigger] s.drop_last()[i].0 == k;
            assert(s[i].0 == k);
        }
        if s.last().0 == k {
            assert(s[s.len() - 1].0 == k);
        }
    }
}

proof fn lemma_push_pair(l: Seq<(Seq<char>, Seq<char>)>, k: Seq<char>, v: Seq<char>)
    requires
        unique_keys(l),
        !has_key(l, k),
    ensures
        unique_keys(l.push((k, v))),
        put(l, k, v) == l.push((k, v)),
        forall|k2: Seq<char>| #[trigger] has_key(l.push((k, v)), k2) <==> has_key(l, k2) || k2 == k,
        forall|k2: Seq<char>| #[trigger] lookup(l.push((k, v)), k2) == if k2 == k {
            Some(v)
        } else {
            lookup(l, k2)
        },
{
    let l2 = l.push((k, v));
    assert(l2.drop_last() =~= l);
    assert forall|i: int, j: int| 0 <= i < j < l2.len() implies l2[i].0 != l2[j].0 by {
        if j == l.len() {
            assert(l[i].0 == l2[i].0);
        }
    }
    assert forall|k2: Seq<char>| #[trigger] has_key(l2, k2) <==> has_key(l, k2) || k2 == k by {
        if has_key(l2, k2) {
            let i = choose|i: int| 0 <= i < l2.len() && #[trigger] l2[i].0 == k2;
            if i < l.len() {
                assert(l[i].0 == k2);
            }
        }
        if has_key(l, k2) {
            let i = choose|i: int| 0 <= i < l.len() && #[trigger] l[i].0 == k2;
            assert(l2[i].0 == k2);
        }
        if k2 == k {
            assert(l2[l.len() as int].0 == k2);
        }
    }
    assert forall|k2: Seq<char>| #[trigger] lookup(l2, k2) == if k2 == k {
        Some(v)
    } else {
        lookup(l, k2)
    } by {
        lemma_lookup_has_key(l, k2);
    }
}

/// What the tool-argument step keeps true: the names used grow by the keys
/// seen, and the leftovers hold, once each, the keys not used at the start,
/// with their first values percent-encoded.
pub open spec fn tool_rest_inv(
    tp: Seq<(Seq<char>, Seq<char>)>,
    used0: Seq<Seq<char>>,
    st: RestState,
) -> bool {
    &&& forall|k: Seq<char>| #[trigger] st.1.contains(k) <==> used0.contains(k) || has_key(tp, k)
    &&& unique_keys(st.2)
    &&& forall|k: Seq<char>| #[trigger] has_key(st.2, k) <==> has_key(tp, k) && !used0.contains(k)
    &&& forall|k: Seq<char>| #[trigger] has_key(st.2, k) ==> lookup(st.2, k) == Some(
        percent_encoded(lookup(tp, k)->Some_0),
    )
}

proof fn lemma_tool_rest(tp: Seq<(Seq<char>, Seq<char>)>, a: Seq<char>, used0: Seq<Seq<char>>)
    ensures
        tool_rest_inv(tp, used0, tool_rest(tp, (a, used0, Seq::empty()))),
    decreases tp.len(),
{
    let st = tool_rest(tp, (a, used0, Seq::empty()));
    if tp.len() == 0 {
        assert forall|k: Seq<char>| !has_key(tp, k) by {}
        assert forall|k: Seq<char>| !has_key(st.2, k) by {}
    } else {
        let pre = tp.drop_last();
        lemma_tool_rest(pre, a, used0);
        let (a1, u1, l1) = tool_rest(pre, (a, used0, Seq::empty()));
        let (k, v) = tp.last();
        assert forall|k2: Seq<char>| #[trigger] has_key(tp, k2) <==> has_key(pre, k2) || k2 == k by {
            if has_key(tp, k2) {
                let i = choose|i: int| 0 <= i < tp.len() && #[trigger] tp[i].0 == k2;
                if i < pre.len() {
                    assert(pre[i].0 == k2);
                }
            }
            if has_key(pre, k2) {
                let i = choose|i: int| 0 <= i < pre.len() && #[trigger] pre[i].0 == k2;
                assert(tp[i].0 == k2);
            }
            if k2 == k {
                assert(tp[tp.len() - 1].0 == k2);
            }
        }
        assert forall|k2: Seq<char>| has_key(pre, k2) implies #[trigger] lookup(tp, k2) == lookup(pre, k2) by {
            lemma_lookup_has_key(pre, k2);
        }
        if !u1.contains(k) {
            lemma_push_pair(l1, k, percent_encoded(v));
            lemma_lookup_has_key(pre, k);
            assert forall|k2: Seq<char>| #[trigger] st.1.contains(k2) <==> used0.contains(k2) || has_key(tp, k2) by {
                assert(u1.push(k).contains(k2) <==> u1.contains(k2) || k2 == k) by {
                    if u1.push(k).contains(k2) {
                        let i = choose|i: int| 0 <= i < u1.push(k).len() && u1.push(k)[i] == k2;
                        if i < u1.len() {
                            assert(u1[i] == k2);
                        }
                    }
                    if u1.contains(k2) {
                        let i = choose|i: int| 0 <= i < u1.len() && u1[i] == k2;
                        assert(u1.push(k)[i] == k2);
                    }
                    if k2 == k {
                        assert(u1.push(k)[u1.len() as int] == k2);
                    }
                }
            }
        }
    }
}

/// The default of `e` is applied when the names in `u` are taken.
pub open spec fn default_applies(e: (Seq<char>, Option<Seq<char>>), u: Seq<Seq<char>>) -> bool {
    &&& e.1 is Some
    &&& e.1->Some_0.len() > 0
    &&& !u.contains(e.0)
}

/// Some parameter named `k` has its default applied.
pub open spec fn applied_name(d: Seq<(Seq<char>, Option<Seq<char>>)>, u: Seq<Seq<char>>, k: Seq<char>) -> bool {
    exists|i: int| 0 <= i < d.len() && d[i].0 == k && default_applies(d[i], u)
}

/// What the default step keeps true, starting from leftovers `l0`.
pub open spec fn default_rest_inv(
    d: Seq<(Seq<char>, Option<Seq<char>>)>,
    u: Seq<Seq<char>>,
    l0: Seq<(Seq<char>, Seq<char>)>,
    st: RestState,
) -> bool {
    &&& st.1 == u
    &&& unique_keys(st.2)
    &&& forall|k: Seq<char>| #[trigger] has_key(st.2, k) <==> has_key(l0, k) || applied_name(d, u, k)
    &&& forall|k: Seq<char>| has_key(l0, k) ==> #[trigger] lookup(st.2, k) == lookup(l0, k)
    &&& forall|i: int| 0 <= i < d.len() && default_applies(d[i], u) ==> #[trigger] lookup(st.2, d[i].0)
        == d[i].1
}

proof fn lemma_default_rest(
    d: Seq<(Seq<char>, Option<Seq<char>>)>,
    a: Seq<char>,
    u: Seq<Seq<char>>,
    l0: Seq<(Seq<char>, Seq<char>)>,
)
    requires
        distinct_names(d),
        unique_keys(l0),
        forall|k: Seq<char>| #[trigger] has_key(l0, k) ==> u.contains(k),
    ensures
        default_rest_inv(d, u, l0, default_rest(d, (a, u, l0))),
    decreases d.len(),
{
    if d.len() > 0 {
        let pre = d.drop_last();
        assert forall|i: int, j: int| 0 <= i < j < pre.len() implies pre[i].0 != pre[j].0 by {
            assert(d[i].0 != d[j].0);
        }
        lemma_default_rest(pre, a, u, l0);
        let (a1, u1, l1) = default_rest(pre, (a, u, l0));
        let (name, def) = d.last();
        let st = default_rest(d, (a, u, l0));
        assert forall|k: Seq<char>| #[trigger] applied_name(d, u, k) <==> applied_name(pre, u, k) || (k == name
            && default_applies(d.last(), u)) by {
            if exists|i: int| 0 <= i < d.len() && d[i].0 == k && default_applies(d[i], u) {
                let i = choose|i: int| 0 <= i < d.len() && d[i].0 == k && default_applies(d[i], u);
                if i < pre.len() {
                    assert(pre[i] == d[i]);
                }
            }
            if exists|i: int| 0 <= i < pre.len() && pre[i].0 == k && default_applies(pre[i], u) {
                let i = choose|i: int| 0 <= i < pre.len() && pre[i].0 == k && default_applies(pre[i], u);
                assert(pre[i] == d[i]);
            }
        }
        if default_applies(d.last(), u) {
            assert(!has_key(l1, name)) by {
                if has_key(l1, name) {
                    if !has_key(l0, name) {
                        let i = choose|i: int| 0 <= i < pre.len() && pre[i].0 == name && default_applies(pre[i], u);
                        assert(d[i].0 != d[d.len() - 1].0);
                    }
                }
            }
            lemma_push_pair(l1, name, def->Some_0);
            assert forall|i: int| 0 <= i < d.len() && default_applies(d[i], u) implies #[trigger] lookup(st.2, d[i].0)
                == d[i].1 by {
                if i < pre.len() {
                    assert(pre[i] == d[i]);
                    assert(d[i].0 != d[d.len() - 1].0);
                }
            }
            assert forall|k: Seq<char>| has_key(l0, k) implies #[trigger] lookup(st.2, k) == lookup(l0, k) by {
                assert(u.contains(k));
            }
        } else {
            assert forall|i: int| 0 <= i < d.len() && default_applies(d[i], u) implies #[trigger] lookup(st.2, d[i].0)
                == d[i].1 by {
                assert(i < pre.len());
                assert(pre[i] == d[i]);
            }
        }
    }
}

proof fn lemma_scan_ok(p: Seq<char>, tp: Seq<(Seq<char>, Seq<char>)>)
    requires
        forall|i: int| 0 <= i < placeholders(p).len() ==> has_key(tp, #[trigger] placeholders(p)[i]),
    ensures
        scan(p, tp) is Ok,
        scan(p, tp)->Ok_0.1 == placeholder_scan(p).0,
        scan(p, tp)->Ok_0.2 == placeholder_scan(p).1,
        scan(p, tp)->Ok_0.3 == placeholder_scan(p).2,
    decreases p.len(),
{
    if p.len() > 0 {
        let pre = p.drop_last();
        assert forall|i: int| 0 <= i < placeholders(pre).len() implies has_key(tp, #[trigger] placeholders(pre)[i]) by {
            assert(placeholders(pre)[i] == placeholders(p)[i]);
        }
        lemma_scan_ok(pre, tp);
        if p.last() == '}' {
            let name = placeholder_scan(pre).0;
            assert(placeholders(p)[placeholders(pre).len() as int] == name);
            lemma_lookup_has_key(tp, name);
        }
    }
}

/// Templating fills every placeholder that has a value, and the leftover
/// parameters then hold, exactly once each, every tool argument that no
/// placeholder used (percent-encoded) and every carried non-empty default
/// (as declared), and nothing else.
pub proof fn law_leftovers_exactly_once(
    p: Seq<char>,
    tp: Seq<(Seq<char>, Seq<char>)>,
    d: Seq<(Seq<char>, Option<Seq<char>>)>,
)
    requires
        forall|i: int| 0 <= i < placeholders(p).len() ==> has_key(tp, #[trigger] placeholders(p)[i]),
        distinct_names(d),
    ensures
        expand(p, tp, d) is Ok,
        unique_keys(expand(p, tp, d)->Ok_0.1),
        forall|k: Seq<char>|
            has_key(tp, k) && !placeholders(p).contains(k) ==> #[trigger] lookup(
                expand(p, tp, d)->Ok_0.1,
                k,
            ) == Some(percent_encoded(lookup(tp, k)->Some_0)),
        forall|i: int|
            0 <= i < d.len() && default_carried(d[i], p, tp) ==> #[trigger] lookup(
                expand(p, tp, d)->Ok_0.1,
                d[i].0,
            ) == d[i].1,
        forall|k: Seq<char>| #[trigger]
            has_key(expand(p, tp, d)->Ok_0.1, k) ==> (has_key(tp, k) && !placeholders(p).contains(k))
                || exists|i: int| 0 <= i < d.len() && d[i].0 == k && default_carried(d[i], p, tp),
{
    lemma_scan_ok(p, tp);
    let st = scan(p, tp)->Ok_0;
    let used0 = st.3;
    lemma_tool_rest(tp, st.0, used0);
    let s2 = tool_rest(tp, (st.0, used0, Seq::empty()));
    let u = s2.1;
    assert forall|k: Seq<char>| #[trigger] has_key(s2.2, k) implies u.contains(k) by {}
    lemma_default_rest(d, s2.0, u, s2.2);
    let lo = expand(p, tp, d)->Ok_0.1;
    assert forall|i: int| 0 <= i < d.len() implies default_applies(d[i], u) == default_carried(d[i], p, tp) by {}
    assert forall|k: Seq<char>| has_key(tp, k) && !placeholders(p).contains(k) implies #[trigger] lookup(lo, k)
        == Some(percent_encoded(lookup(tp, k)->Some_0)) by {}
    assert forall|k: Seq<char>| #[trigger] has_key(lo, k) implies (has_key(tp, k) && !placeholders(p).contains(k))
        || exists|i: int| 0 <= i < d.len() && d[i].0 == k && default_carried(d[i], p, tp) by {
        if !has_key(s2.2, k) {
            let i = choose|i: int| 0 <= i < d.len() && d[i].0 == k && default_applies(d[i], u);
            assert(default_carried(d[i], p, tp));
        }
    }
}

/// Text with no brace.
pub open spec fn no_braces(s: Seq<char>) -> bool {
    !has_char(s, '{') && !has_char(s, '}')
}

proof fn lemma_encode_bytes_no_braces(bs: Seq<u8>)
    ensures
        no_braces(encode_bytes(bs)),
    decreases bs.len(),
{
    if bs.len() > 0 {
        lemma_encode_bytes_no_braces(bs.drop_last());
        let a = encode_bytes(bs.drop_last());
        let b = bs.last();
        let e = encode_byte(b);
        assert(no_braces(e)) by {
            if is_unreserved_byte(b) {
                assert(b != 123 && b != 125);
                assert(e[0] == b as char);
            } else {
                assert(b / 16 < 16 && b % 16 < 16);
            }
        }
        let r = a + e;
        assert forall|i: int| 0 <= i < r.len() implies r[i] != '{' && r[i] != '}' by {
            if i < a.len() {
                assert(r[i] == a[i]);
            } else {
                assert(r[i] == e[i - a.len()]);
            }
        }
    }
}

proof fn lemma_scan_no_braces(p: Seq<char>, tp: Seq<(Seq<char>, Seq<char>)>)
    ensures
        scan(p, tp) is Ok ==> no_braces(scan(p, tp)->Ok_0.0),
    decreases p.len(),
{
    if p.len() > 0 {
        lemma_scan_no_braces(p.drop_last(), tp);
        if scan(p, tp) is Ok {
            let st = scan(p.drop_last(), tp)->Ok_0;
            let c = p.last();
            let a = st.0;
            let r = scan(p, tp)->Ok_0.0;
            if c == '}' {
                let v = lookup(tp, st.1)->Some_0;
                lemma_encode_bytes_no_braces(encode_utf8(v));
                let e = percent_encoded(v);
                assert forall|i: int| 0 <= i < r.len() implies r[i] != '{' && r[i] != '}' by {
                    if i < a.len() {
                        assert(r[i] == a[i]);
                    } else {
                        assert(r[i] == e[i - a.len()]);
                    }
                }
            } else if c != '{' && !st.2 {
                assert forall|i: int| 0 <= i < r.len() implies r[i] != '{' && r[i] != '}' by {
                    if i < a.len() {
                        assert(r[i] == a[i]);
                    }
                }
            }
        }
    }
}

proof fn lemma_query_pair_clean(a: Seq<char>, k: Seq<char>, v: Seq<char>)
    requires
        braces_after_query(a),
    ensures
        braces_after_query(with_query_pair(a, k, v)),
{
    let r = with_query_pair(a, k, v);
    assert forall|i: int| 0 <= i < r.len() && (r[i] == '{' || r[i] == '}') implies exists|j: int|
        0 <= j < i && (#[trigger] r[j] == '?' || r[j] == '#') by {
        if i < a.len() {
            assert(r[i] == a[i]);
            let j = choose|j: int| 0 <= j < i && (#[trigger] a[j] == '?' || a[j] == '#');
            assert(r[j] == a[j]);
        } else if has_char(a, '?') {
            let j = choose|j: int| 0 <= j < a.len() && a[j] == '?';
            assert(r[j] == a[j]);
        } else {
            assert(r[a.len() as int] == '?');
        }
    }
}

proof fn lemma_tool_rest_clean(tp: Seq<(Seq<char>, Seq<char>)>, st: RestState)
    requires
        braces_after_query(st.0),
    ensures
        braces_after_query(tool_rest(tp, st).0),
    decreases tp.len(),
{
    if tp.len() > 0 {
        lemma_tool_rest_clean(tp.drop_last(), st);
        let (a, u, l) = tool_rest(tp.drop_last(), st);
        lemma_query_pair_clean(a, tp.last().0, percent_encoded(tp.last().1));
    }
}

proof fn lemma_default_rest_clean(d: Seq<(Seq<char>, Option<Seq<char>>)>, st: RestState)
    requires
        braces_after_query(st.0),
    ensures
        braces_after_query(default_rest(d, st).0),
    decreases d.len(),
{
    if d.len() > 0 {
        lemma_default_rest_clean(d.drop_last(), st);
        let (a, u, l) = default_rest(d.drop_last(), st);
        if d.last().1 is Some {
            lemma_query_pair_clean(a, d.last().0, d.last().1->Some_0);
        }
    }
}

/// The request target that templating produces has no brace before its query:
/// substituted values are percent-encoded, and the leftover pairs all come
/// after a `?`.
pub proof fn lemma_expand_target_clean(
    p: Seq<char>,
    tp: Seq<(Seq<char>, Seq<char>)>,
    d: Seq<(Seq<char>, Option<Seq<char>>)>,
)
    ensures
        expand(p, tp, d) is Ok ==> braces_after_query(expand(p, tp, d)->Ok_0.0),
{
    lemma_scan_no_braces(p, tp);
    if scan(p, tp) is Ok {
        let st = scan(p, tp)->Ok_0;
        assert(braces_after_query(st.0)) by {
            assert forall|i: int| 0 <= i < st.0.len() implies !(st.0[i] == '{' || st.0[i] == '}') by {}
        }
        lemma_tool_rest_clean(tp, (st.0, st.3, Seq::empty()));
        lemma_default_rest_clean(d, tool_rest(tp, (st.0, st.3, Seq::empty())));
    }
}

proof fn lemma_scan_plain(q: Seq<char>, tp: Seq<(Seq<char>, Seq<char>)>)
    requires
        !has_char(q, '{'),
        !has_char(q, '}'),
    ensures
        scan(q, tp) == Ok::<ScanState, Seq<char>>((q, Seq::empty(), false, Seq::empty())),
    decreases q.len(),
{
    if q.len() > 0 {
        let pre = q.drop_last();
        assert(!has_char(pre, '{') && !has_char(pre, '}')) by {
            assert forall|i: int| 0 <= i < pre.len() implies pre[i] != '{' && pre[i] != '}' by {
                assert(q[i] == pre[i]);
            }
        }
        lemma_scan_plain(pre, tp);
        assert(q[q.len() - 1] != '{' && q[q.len() - 1] != '}');
        assert(pre.push(q.last()) =~= q);
    } else {
        assert(q =~= Seq::<char>::empty());
    }
}

/// Templating a text without braces, with no tool arguments and no declared
/// parameters, yields that text and no leftovers: applied to a path that
/// templating returned, it changes nothing before URL resolution.
pub proof fn law_template_idempotent(q: Seq<char>)
    requires
        !has_char(q, '{'),
        !has_char(q, '}'),
    ensures
        expand(q, Seq::empty(), Seq::empty()) == Ok::<
            (Seq<char>, Seq<(Seq<char>, Seq<char>)>),
            Seq<char>,
        >((q, Seq::empty())),
{
    lemma_scan_plain(q, Seq::empty());
}

} // verus!
