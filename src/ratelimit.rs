//! Token-bucket admission by (model, selector): each rule grants a number of
//! tokens per window, refilled in proportion to the time that passed.
use vstd::prelude::*;
use crate::llm_gateway::Header;
use crate::text::text_eq;

verus! {

/// A budget of `tokens` per `window_ns` nanoseconds for one model and
/// selector header; `selector_value` `None` applies to every value.
pub struct RatelimitRule {
    pub model: String,
    pub selector_key: String,
    pub selector_value: Option<String>,
    pub tokens: u64,
    pub window_ns: u64,
}

/// The tokens left to one (model, selector key, selector value).
pub struct Bucket {
    pub model: String,
    pub key: String,
    pub value: String,
    pub available: u64,
    pub last_refill_ns: u64,
}

/// The rules and the buckets they have filled so far.
pub struct RatelimitRegistry {
    pub rules: Vec<RatelimitRule>,
    pub buckets: Vec<Bucket>,
}

/// Whether `r` governs requests for `model` with this selector.
pub open spec fn rule_applies(r: RatelimitRule, model: Seq<char>, key: Seq<char>, value: Seq<char>) -> bool {
    &&& r.model@ == model
    &&& r.selector_key@ == key
    &&& match r.selector_value {
        Some(v) => v@ == value,
        None => true,
    }
}

/// `i` is the first rule that governs the request.
pub open spec fn first_rule(rs: Seq<RatelimitRule>, model: Seq<char>, key: Seq<char>, value: Seq<char>, i: int) -> bool {
    &&& 0 <= i < rs.len()
    &&& rule_applies(rs[i], model, key, value)
    &&& forall|j: int| 0 <= j < i ==> !rule_applies(rs[j], model, key, value)
}

pub open spec fn bucket_for(b: Bucket, model: Seq<char>, key: Seq<char>, value: Seq<char>) -> bool {
    b.model@ == model && b.key@ == key && b.value@ == value
}

/// The tokens of a bucket after refilling at `now`: `tokens` per `window_ns`
/// for the time since the last refill, capped at `tokens`.
pub open spec fn refilled(available: u64, last: u64, now: u64, tokens: u64, window_ns: u64) -> u64 {
    let elapsed: int = if now >= last { now - last } else { 0 };
    let gained: int = if window_ns == 0 { tokens as int } else { elapsed * tokens / window_ns as int };
    if available as int + gained >= tokens as int {
        tokens
    } else {
        (available as int + gained) as u64
    }
}

/// What a check of `tokens` for `model` and selector (`key`, `value`) at
/// `now` does, from registry `o` to `f`, where `admitted` tells whether it
/// admitted them (see `RatelimitRegistry::check_limit`).
pub open spec fn limit_checked(
    o: RatelimitRegistry,
    f: RatelimitRegistry,
    model: Seq<char>,
    key: Seq<char>,
    value: Seq<char>,
    tokens: u64,
    now: u64,
    admitted: bool,
) -> bool {
    &&& f.rules@ == o.rules@
    &&& (forall|j: int| 0 <= j < o.rules@.len() ==> !rule_applies(#[trigger] o.rules@[j], model, key, value))
        ==> admitted && f.buckets@ == o.buckets@
    &&& forall|i: int| first_rule(o.rules@, model, key, value, i) ==> {
        let rule = o.rules@[i];
        exists|k: int| 0 <= k < f.buckets@.len() && #[trigger] bucket_for(f.buckets@[k], model, key, value) && {
            let avail = if k < o.buckets@.len() {
                refilled(o.buckets@[k].available, o.buckets@[k].last_refill_ns, now, rule.tokens, rule.window_ns)
            } else {
                rule.tokens
            };
            &&& f.buckets@[k].last_refill_ns == now
            &&& (admitted <==> tokens <= avail)
            &&& f.buckets@[k].available == if tokens <= avail {
                (avail - tokens) as u64
            } else {
                avail
            }
        }
    }
}

/// The reason given when admission is refused.
pub open spec fn refusal_text() -> Seq<char> {
    "rate limit exceeded"@
}

impl RatelimitRegistry {
    /// A registry with the given rules and full buckets.
    pub fn new(rules: Vec<RatelimitRule>) -> (r: Self)
        ensures
            r.rules@ == rules@,
            r.buckets@.len() == 0,
    {
        RatelimitRegistry { rules, buckets: Vec::new() }
    }

    fn find_rule(&self, model: &str, selector: &Header) -> (r: Option<usize>)
        ensures
            match r {
                Some(i) => first_rule(self.rules@, model@, selector.key@, selector.value@, i as int),
                None => forall|j: int| 0 <= j < self.rules@.len() ==> !rule_applies(
                    #[trigger] self.rules@[j],
                    model@,
                    selector.key@,
                    selector.value@,
                ),
            },
    {
        let mut i: usize = 0;
        while i < self.rules.len()
            invariant
                i <= self.rules@.len(),
                forall|j: int| 0 <= j < i ==> !rule_applies(#[trigger] self.rules@[j], model@, selector.key@, selector.value@),
            decreases self.rules@.len() - i,
        {
            let r = &self.rules[i];
            let value_ok = match &r.selector_value {
                Some(v) => text_eq(v.as_str(), selector.value.as_str()),
                None => true,
            };
            if text_eq(r.model.as_str(), model) && text_eq(r.selector_key.as_str(), selector.key.as_str()) && value_ok {
                return Some(i);
            }
            i = i + 1;
        }
        None
    }

    fn find_bucket(&self, model: &str, selector: &Header) -> (r: Option<usize>)
        ensures
            match r {
                Some(i) => i < self.buckets@.len() && bucket_for(self.buckets@[i as int], model@, selector.key@, selector.value@),
                None => forall|j: int| 0 <= j < self.buckets@.len() ==> !bucket_for(
                    #[trigger] self.buckets@[j],
                    model@,
                    selector.key@,
                    selector.value@,
                ),
            },
    {
        let mut i: usize = 0;
        while i < self.buckets.len()
            invariant
                i <= self.buckets@.len(),
                forall|j: int| 0 <= j < i ==> !bucket_for(#[trigger] self.buckets@[j], model@, selector.key@, selector.value@),
            decreases self.buckets@.len() - i,
        {
            let b = &self.buckets[i];
            if text_eq(b.model.as_str(), model) && text_eq(b.key.as_str(), selector.key.as_str()) && text_eq(
                b.value.as_str(),
                selector.value.as_str(),
            ) {
                return Some(i);
            }
            i = i + 1;
        }
        None
    }

    /// Admits `tokens` input tokens for `model` and `selector` at `now_ns`:
    /// without a governing rule always; else where the bucket of that model
    /// and selector, refilled to now (and full when new), holds as many, which
    /// are then taken from it.
    pub fn check_limit(&mut self, model: &str, selector: &Header, tokens: u64, now_ns: u64) -> (r: Result<(), String>)
        ensures
            limit_checked(*old(self), *final(self), model@, selector.key@, selector.value@, tokens, now_ns, r is Ok),
            r is Err ==> r->Err_0@ == refusal_text(),
    {
        let ri = match self.find_rule(model, selector) {
            Some(i) => i,
            None => {
                return Ok(());
            },
        };
        let before_len = self.buckets.len();
        let cap = self.rules[ri].tokens;
        let window = self.rules[ri].window_ns;
        let k = match self.find_bucket(model, selector) {
            Some(k) => k,
            None => {
                self.buckets.push(Bucket {
                    model: String::from_str(model),
                    key: selector.key.clone(),
                    value: selector.value.clone(),
                    available: cap,
                    last_refill_ns: now_ns,
                });
                self.buckets.len() - 1
            },
        };
        let b_avail = self.buckets[k].available;
        let b_last = self.buckets[k].last_refill_ns;
        let avail: u64 = if k == before_len {
            cap
        } else {
            let elapsed: u64 = if now_ns >= b_last { now_ns - b_last } else { 0 };
            let gained: u128 = if window == 0 {
                cap as u128
            } else {
                proof {
                    assert((elapsed as int) * (cap as int) <= (u64::MAX as int) * (u64::MAX as int)) by (nonlinear_arith)
                        requires elapsed <= u64::MAX, cap <= u64::MAX, elapsed >= 0, cap >= 0;
                }
                (elapsed as u128) * (cap as u128) / (window as u128)
            };
            if b_avail as u128 + gained >= cap as u128 {
                cap
            } else {
                (b_avail as u128 + gained) as u64
            }
        };
        let ok = tokens <= avail;
        let left = if ok { avail - tokens } else { avail };
        let b = Bucket {
            model: String::from_str(model),
            key: selector.key.clone(),
            value: selector.value.clone(),
            available: left,
            last_refill_ns: now_ns,
        };
        self.buckets.set(k, b);
        assert(bucket_for(self.buckets@[k as int], model@, selector.key@, selector.value@));
        proof {
            assert forall|i: int| first_rule(old(self).rules@, model@, selector.key@, selector.value@, i) implies i == ri by {
                if i < ri {
                    assert(!rule_applies(old(self).rules@[i], model@, selector.key@, selector.value@));
                } else if i > ri {
                    assert(!rule_applies(old(self).rules@[ri as int], model@, selector.key@, selector.value@));
                }
            }
        }
        if ok {
            Ok(())
        } else {
            Err(String::from_str("rate limit exceeded"))
        }
    }
}

} // verus!
