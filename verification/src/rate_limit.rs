//! Per-tenant (per-org) request rate limiting at the API edge.
//!
//! Each org has a token bucket of `CAPACITY` tokens refilled at `REFILL_QPS`
//! tokens per second; a request takes one token, and an empty bucket answers
//! 429 with `Retry-After`. Tokens are counted in billionths of a token and
//! time in nanoseconds, so refilling is exact: one nanosecond refills
//! `REFILL_QPS` nano-tokens.

use std::collections::HashMap;
use vstd::prelude::*;
use vstd::std_specs::hash::group_hash_axioms;

use crate::wire::{parse_uuid, uuid_from_str};
use crate::text::{before_first, chars_of, split_chars, split_pieces, vecs_view};

verus! {

broadcast use group_hash_axioms;

/// Maximum requests burst per org before refill.
pub const CAPACITY: u32 = 60;

/// Tokens added per second (steady-state QPS limit per org).
pub const REFILL_QPS: u64 = 20;

/// One token, in the bucket's unit (nano-tokens).
pub const TOKEN: u64 = 1_000_000_000;

/// A full bucket, in nano-tokens.
pub const CAPACITY_UNITS: u64 = 60_000_000_000;

/// Nanoseconds per second.
pub const NANOS_PER_SEC: u64 = 1_000_000_000;

/// One org's token bucket.
#[derive(Debug, Clone, Copy, PartialEq, Eq, Structural)]
pub struct Bucket {
    /// Tokens available, in nano-tokens (at most `CAPACITY_UNITS`).
    pub tokens: u64,
    /// Monotonic time of the last refill, in nanoseconds.
    pub last_refill: u64,
}

/// The tokens a bucket holds at `now`: what it held, plus `REFILL_QPS` per
/// second since the last refill, at most a full bucket. A clock reading
/// earlier than the last refill counts as no time elapsed.
pub open spec fn refilled(b: Bucket, now: u64) -> int {
    let elapsed: int = if now >= b.last_refill { now - b.last_refill } else { 0 };
    let t = b.tokens + elapsed * (REFILL_QPS as int);
    if t <= CAPACITY_UNITS { t } else { CAPACITY_UNITS as int }
}

/// A request at `now`: the bucket afterwards and whether it was allowed.
pub open spec fn consume(b: Bucket, now: u64) -> (Bucket, bool) {
    let t = refilled(b, now);
    if t >= TOKEN {
        (Bucket { tokens: (t - TOKEN) as u64, last_refill: now }, true)
    } else {
        (Bucket { tokens: t as u64, last_refill: now }, false)
    }
}

/// Whole seconds until the bucket holds a token again.
pub open spec fn retry_after(b: Bucket) -> u64 {
    if b.tokens >= TOKEN {
        0
    } else {
        let needed = TOKEN - b.tokens;
        let per_sec = (REFILL_QPS * TOKEN) as int;
        ((needed + per_sec - 1) / per_sec) as u64
    }
}

/// A full bucket created at `now`.
pub open spec fn fresh_bucket(now: u64) -> Bucket {
    Bucket { tokens: CAPACITY_UNITS, last_refill: now }
}

impl Bucket {
    pub open spec fn wf(self) -> bool {
        self.tokens <= CAPACITY_UNITS
    }

    /// A full bucket.
    pub fn new(now: u64) -> (b: Bucket)
        ensures
            b == fresh_bucket(now),
            b.wf(),
    {
        Bucket { tokens: CAPACITY_UNITS, last_refill: now }
    }

    /// Refills and takes one token. Returns true if allowed.
    pub fn try_consume(&mut self, now: u64) -> (allowed: bool)
        requires
            old(self).wf(),
        ensures
            (*final(self), allowed) == consume(*old(self), now),
            final(self).wf(),
    {
        let elapsed: u64 = if now >= self.last_refill { now - self.last_refill } else { 0 };
        let refill: u128 = (elapsed as u128) * 20u128;
        let total: u128 = (self.tokens as u128) + refill;
        let t: u64 = if total <= CAPACITY_UNITS as u128 { total as u64 } else { CAPACITY_UNITS };
        self.last_refill = now;
        if t >= TOKEN {
            self.tokens = t - TOKEN;
            true
        } else {
            self.tokens = t;
            false
        }
    }

    /// Whole seconds until at least one token is available.
    pub fn retry_after_secs(&self) -> (secs: u64)
        requires
            self.wf(),
        ensures
            secs == retry_after(*self),
    {
        if self.tokens >= TOKEN {
            return 0;
        }
        let needed: u64 = TOKEN - self.tokens;
        let per_sec: u64 = REFILL_QPS * TOKEN;
        (needed + per_sec - 1) / per_sec
    }
}

/// `n` requests at the same instant `now`, starting from `b`.
pub open spec fn drain(b: Bucket, now: u64, n: nat) -> Bucket
    decreases n,
{
    if n == 0 {
        b
    } else {
        consume(drain(b, now, (n - 1) as nat), now).0
    }
}

/// Law: a fresh bucket lets `CAPACITY` requests through at one instant and
/// refuses the next one.
pub proof fn lemma_capacity_burst(now: u64, n: nat)
    requires
        n <= CAPACITY,
    ensures
        n < CAPACITY ==> consume(drain(fresh_bucket(now), now, n), now).1,
        n == CAPACITY ==> !consume(drain(fresh_bucket(now), now, n), now).1,
{
    lemma_drain_tokens(now, n);
}

proof fn lemma_drain_tokens(now: u64, n: nat)
    requires
        n <= CAPACITY,
    ensures
        drain(fresh_bucket(now), now, n) == (Bucket {
            tokens: (CAPACITY_UNITS - n * TOKEN) as u64,
            last_refill: now,
        }),
    decreases n,
{
    if n > 0 {
        lemma_drain_tokens(now, (n - 1) as nat);
    }
}

/// Law: a refused request reports a retry delay of at least one second.
pub proof fn lemma_refusal_retry_positive(b: Bucket, now: u64)
    requires
        b.wf(),
        !consume(b, now).1,
    ensures
        retry_after(consume(b, now).0) >= 1,
{
    let needed: int = TOKEN - consume(b, now).0.tokens;
    let per_sec: int = 20_000_000_000;
    assert((needed + per_sec - 1) / per_sec >= 1) by (nonlinear_arith)
        requires
            needed >= 1,
            per_sec == 20_000_000_000,
    ;
}

/// Law: a request refused at `now` is allowed once the advertised
/// `Retry-After` delay has passed.
pub proof fn lemma_retry_after_honoured(b: Bucket, now: u64)
    requires
        b.wf(),
        !consume(b, now).1,
        now + retry_after(consume(b, now).0) * NANOS_PER_SEC <= u64::MAX,
    ensures
        ({
            let denied = consume(b, now).0;
            consume(denied, (now + retry_after(denied) * NANOS_PER_SEC) as u64).1
        }),
{
    let denied = consume(b, now).0;
    let r = retry_after(denied);
    let needed = TOKEN - denied.tokens;
    let per_sec: int = (REFILL_QPS * TOKEN) as int;
    assert(r == (needed + per_sec - 1) / per_sec);
    assert(r * per_sec >= needed) by (nonlinear_arith)
        requires
            r == (needed + per_sec - 1) / per_sec,
            per_sec > 0,
            needed > 0,
    ;
    assert(r * NANOS_PER_SEC * REFILL_QPS == r * per_sec) by (nonlinear_arith)
        requires
            per_sec == 20_000_000_000,
            NANOS_PER_SEC == 1_000_000_000,
            REFILL_QPS == 20,
    ;
}


// ---------------------------------------------------------------------------
// The per-org store
// ---------------------------------------------------------------------------

/// The buckets of all orgs seen so far, keyed by org id.
#[derive(Debug)]
pub struct RateLimitStore {
    buckets: HashMap<u128, Bucket>,
}

/// A request from `org` at `now` against the buckets `m`: the buckets
/// afterwards, whether it was allowed, and the retry delay when it was not.
/// An org without a bucket starts with a full one.
pub open spec fn store_check(m: Map<u128, Bucket>, org: u128, now: u64) -> (Map<u128, Bucket>, bool, u64) {
    let b = if m.contains_key(org) { m[org] } else { fresh_bucket(now) };
    let (b2, allowed) = consume(b, now);
    (m.insert(org, b2), allowed, if allowed { 0 } else { retry_after(b2) })
}

/// Whether a bucket was refilled less than `ttl` nanoseconds before `now`.
pub open spec fn is_recent(b: Bucket, now: u64, ttl: u64) -> bool {
    (if now >= b.last_refill { now - b.last_refill } else { 0 }) < ttl
}

/// The buckets of `m` refilled less than `ttl` before `now`.
pub open spec fn recent_only(m: Map<u128, Bucket>, now: u64, ttl: u64) -> Map<u128, Bucket> {
    Map::new(|k: u128| m.contains_key(k) && is_recent(m[k], now, ttl), |k: u128| m[k])
}

impl View for RateLimitStore {
    type V = Map<u128, Bucket>;

    closed spec fn view(&self) -> Map<u128, Bucket> {
        self.buckets@
    }
}

impl RateLimitStore {
    /// Every bucket holds at most a full load of tokens.
    pub closed spec fn wf(&self) -> bool {
        forall|k: u128| #[trigger] self.buckets@.contains_key(k) ==> self.buckets@[k].wf()
    }

    /// An empty store.
    pub fn new() -> (s: RateLimitStore)
        ensures
            s@ == Map::<u128, Bucket>::empty(),
            s.wf(),
    {
        RateLimitStore { buckets: HashMap::new() }
    }

    /// Number of orgs with a bucket.
    pub fn len(&self) -> (n: usize)
        ensures
            n == self@.len(),
    {
        self.buckets.len()
    }

    /// The bucket of `org`, if it has one.
    pub fn bucket(&self, org: u128) -> (b: Option<Bucket>)
        ensures
            b == (if self@.contains_key(org) { Some(self@[org]) } else { None::<Bucket> }),
    {
        match self.buckets.get(&org) {
            Some(b) => Some(*b),
            None => None,
        }
    }

    /// Takes one token from `org_id`'s bucket at `now`. Returns
    /// `(allowed, retry_after_secs)`.
    pub fn check(&mut self, org_id: u128, now: u64) -> (res: (bool, u64))
        requires
            old(self).wf(),
        ensures
            final(self).wf(),
            (final(self)@, res.0, res.1) == store_check(old(self)@, org_id, now),
    {
        let mut b = match self.buckets.get(&org_id) {
            Some(b) => *b,
            None => Bucket::new(now),
        };
        let allowed = b.try_consume(now);
        let retry = if allowed { 0 } else { b.retry_after_secs() };
        self.buckets.insert(org_id, b);
        (allowed, retry)
    }

    /// Drops the buckets last refilled `ttl` or more nanoseconds before `now`,
    /// to bound memory growth.
    pub fn evict_stale(&mut self, now: u64, ttl: u64)
        requires
            old(self).wf(),
        ensures
            final(self).wf(),
            final(self)@ == recent_only(old(self)@, now, ttl),
    {
        let ghost m0 = self.buckets@;
        let mut stale: Vec<u128> = Vec::new();
        for k in it: self.buckets.keys()
            invariant
                self.buckets@ == m0,
                it.seq().unref().to_set() == m0.dom(),
                forall|i: int| 0 <= i < stale@.len() ==> m0.contains_key(#[trigger] stale@[i]) && !is_recent(m0[stale@[i]], now, ttl),
                forall|j: int|
                    0 <= j < it.index() ==> (m0.contains_key(*it.seq()[j]) && !is_recent(m0[*it.seq()[j]], now, ttl)) ==> stale@.contains(*#[trigger] it.seq()[j]),
        {
            if let Some(b) = self.buckets.get(k) {
                let elapsed: u64 = if now >= b.last_refill { now - b.last_refill } else { 0 };
                if elapsed >= ttl {
                    let ghost before = stale@;
                    stale.push(*k);
                    proof {
                        assert(stale@[stale@.len() - 1] == *k);
                        assert forall|x: u128| before.contains(x) implies stale@.contains(x) by {
                            let w = choose|w: int| 0 <= w < before.len() && #[trigger] before[w] == x;
                            assert(stale@[w] == x);
                        }
                    }
                }
            }
        }
        let mut i: usize = 0;
        while i < stale.len()
            invariant
                i <= stale.len(),
                forall|k: u128| #[trigger] self.buckets@.contains_key(k) <==> (m0.contains_key(k) && forall|q: int| 0 <= q < i ==> stale@[q] != k),
                forall|k: u128| #[trigger] self.buckets@.contains_key(k) ==> self.buckets@[k] == m0[k],
                forall|q: int| 0 <= q < stale@.len() ==> m0.contains_key(#[trigger] stale@[q]) && !is_recent(m0[stale@[q]], now, ttl),
                forall|k: u128| #[trigger] m0.contains_key(k) && !is_recent(m0[k], now, ttl) ==> stale@.contains(k),
                forall|k: u128| #[trigger] m0.contains_key(k) ==> m0[k].wf(),
            decreases stale.len() - i,
        {
            let k = stale[i];
            self.buckets.remove(&k);
            i = i + 1;
        }
        assert forall|k: u128| #[trigger] self.buckets@.contains_key(k) <==> recent_only(m0, now, ttl).contains_key(k) by {
            if m0.contains_key(k) && !is_recent(m0[k], now, ttl) {
                assert(stale@.contains(k));
                let w = choose|w: int| 0 <= w < stale@.len() && #[trigger] stale@[w] == k;
            }
        }
        assert(self.buckets@ =~= recent_only(m0, now, ttl));
    }
}

// ---------------------------------------------------------------------------
// Org extraction and the middleware decision
// ---------------------------------------------------------------------------

/// The first valid UUID segment that directly follows an `orgs` segment,
/// scanning from segment `i`; a segment read as such a candidate is not
/// read again.
pub open spec fn org_in_segments(segs: Seq<Seq<char>>, i: int) -> Option<u128>
    decreases segs.len() - i,
{
    if i < 0 || i >= segs.len() {
        None
    } else if segs[i] == "orgs"@ {
        if i + 1 < segs.len() {
            match uuid_from_str(segs[i + 1]) {
                Some(id) => Some(id),
                None => org_in_segments(segs, i + 2),
            }
        } else {
            None
        }
    } else {
        org_in_segments(segs, i + 1)
    }
}

/// The org id of a request URI: the path (before any `?`) split on `/`.
pub open spec fn org_id_in_uri(uri: Seq<char>) -> Option<u128> {
    org_in_segments(split_pieces(before_first(uri, '?'), '/'), 0)
}

/// Extracts the first valid UUID path segment after `/orgs/`.
pub fn extract_org_id(uri: &str) -> (r: Option<u128>)
    ensures
        r == org_id_in_uri(uri@),
{
    proof {
        reveal_strlit("orgs");
    }
    let chars = chars_of(uri);
    let parts = split_chars(&chars, '?');
    assert(vecs_view(parts@)[0] == parts@[0]@);
    let path = &parts[0];
    let segs = split_chars(path, '/');
    let ghost sv = vecs_view(segs@);
    let orgs = chars_of("orgs");
    let mut i: usize = 0;
    while i < segs.len()
        invariant
            sv == vecs_view(segs@),
            sv.len() == segs@.len(),
            sv == split_pieces(before_first(uri@, '?'), '/'),
            orgs@ == "orgs"@,
            org_in_segments(sv, i as int) == org_id_in_uri(uri@),
        decreases segs.len() - i,
    {
        assert(sv[i as int] == segs@[i as int]@);
        if crate::text::chars_eq(&segs[i], &orgs) {
            if i + 1 < segs.len() {
                assert(sv[i + 1] == segs@[i + 1]@);
                let cand = crate::text::string_of(&segs[i + 1]);
                match parse_uuid(cand.as_str()) {
                    Some(id) => return Some(id),
                    None => {
                        i = i + 2;
                    },
                }
            } else {
                return None;
            }
        } else {
            i = i + 1;
        }
    }
    None
}

/// A refused request: the error and the `Retry-After` delay in seconds.
#[derive(Debug)]
pub struct RateLimited {
    pub error: crate::errors::ApiError,
    pub retry_after_secs: u64,
}

/// The per-org limit at the API edge: a request whose URI names an org takes
/// one token from that org's bucket; when the bucket is empty the request is
/// refused with 429 `quota_exceeded`. Requests naming no org pass untouched.
pub fn org_rate_limit(store: &mut RateLimitStore, uri: &str, now: u64) -> (refused: Option<RateLimited>)
    requires
        old(store).wf(),
    ensures
        final(store).wf(),
        match org_id_in_uri(uri@) {
            None => refused is None && final(store)@ == old(store)@,
            Some(org) => {
                let (m, allowed, retry) = store_check(old(store)@, org, now);
                &&& final(store)@ == m
                &&& allowed ==> refused is None
                &&& !allowed ==> (refused matches Some(r) && r.retry_after_secs == retry
                    && r.error.status == 429 && r.error.error@ == "quota_exceeded"@
                    && r.error.message@ == "per-org request rate limit exceeded"@)
            },
        },
{
    match extract_org_id(uri) {
        None => None,
        Some(org) => {
            let (allowed, retry) = store.check(org, now);
            if allowed {
                None
            } else {
                Some(
                    RateLimited {
                        error: crate::errors::api_error(
                            429,
                            "quota_exceeded",
                            "per-org request rate limit exceeded",
                        ),
                        retry_after_secs: retry,
                    },
                )
            }
        },
    }
}

/// Law: a request from one org never changes another org's bucket.
pub proof fn lemma_orgs_isolated(m: Map<u128, Bucket>, org: u128, other: u128, now: u64)
    requires
        org != other,
    ensures
        store_check(m, org, now).0.contains_key(other) == m.contains_key(other),
        m.contains_key(other) ==> store_check(m, org, now).0[other] == m[other],
{
}

} // verus!
