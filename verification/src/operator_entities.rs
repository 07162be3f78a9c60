//! Operator entity-admin surface (`/v1/operator/entities/*`): paging,
//! actor resolution, the revoke / override / retrigger guards, the two-step
//! erase with its self-verifying confirm token, and the KEK crypto-shred
//! decision.

use hmac::{Hmac, Mac};
use sha2::Sha256;
use vstd::prelude::*;

use crate::auth::{ct_eq_str, AuthenticatedOperator};
use crate::errors::{ApiError, api_error, api_error_msg, error_view};
use crate::text::{
    chars_of, concat3, dec, join_strings, join_with, last_index, parse_u64, parse_u64_chars,
    push_dec, push_str, str_eq, string_of, strings_view, trim, trimmed,
};

verus! {

/// Default page size of the list endpoint.
pub const DEFAULT_LIMIT: i64 = 50;

/// Largest page the list endpoint serves.
pub const MAX_LIMIT: i64 = 200;

/// Lifetime of an erase confirm token, in seconds.
pub const ERASE_TOKEN_TTL_SECS: u64 = 300;

// ---------------------------------------------------------------------------
// Paging and actor
// ---------------------------------------------------------------------------

/// Query of `GET /v1/operator/entities`.
#[derive(Debug)]
pub struct ListQuery {
    pub claim_status: Option<String>,
    pub verification_method: Option<String>,
    /// Case-insensitive substring of the domain.
    pub domain: Option<String>,
    pub limit: Option<i64>,
    pub offset: Option<i64>,
}

/// The requested page size, defaulted and clamped into `[1, MAX_LIMIT]`.
pub fn clamp_limit(requested: Option<i64>) -> (l: i64)
    ensures
        l == (match requested {
            None => DEFAULT_LIMIT,
            Some(r) => if r < 1 { 1 } else if r > MAX_LIMIT { MAX_LIMIT } else { r },
        }),
{
    let r = match requested {
        Some(r) => r,
        None => DEFAULT_LIMIT,
    };
    if r < 1 {
        1
    } else if r > MAX_LIMIT {
        MAX_LIMIT
    } else {
        r
    }
}

/// The requested offset, defaulted to 0 and never negative.
pub fn clamp_offset(requested: Option<i64>) -> (o: i64)
    ensures
        o == (match requested {
            None => 0,
            Some(r) => if r < 0 { 0 } else { r },
        }),
{
    match requested {
        Some(r) => if r < 0 { 0 } else { r },
        None => 0,
    }
}

/// A list filter: the value when it is not blank.
pub fn nonblank_filter(v: Option<String>) -> (r: Option<String>)
    ensures
        match v {
            Some(s) => if trim(s@).len() > 0 { r == Some(s) } else { r is None },
            None => r is None,
        },
{
    match v {
        Some(s) => if trimmed(s.as_str()).len() > 0 { Some(s) } else { None },
        None => None,
    }
}

/// The acting operator: the body's `operator` field (trimmed) when it is not
/// blank, else the actor header captured by the operator gate, else the
/// sentinel `"operator"`.
pub open spec fn actor_of(body: Option<Seq<char>>, header: Option<Seq<char>>) -> Seq<char> {
    if body matches Some(b) && trim(b).len() > 0 {
        trim(body.unwrap())
    } else {
        match header {
            Some(h) => h,
            None => "operator"@,
        }
    }
}

/// Resolves the acting operator.
pub fn resolve_actor(body_operator: Option<&str>, op: &AuthenticatedOperator) -> (actor: String)
    ensures
        actor@ == actor_of(
            match body_operator { Some(b) => Some(b@), None => None },
            match op.actor { Some(h) => Some(h@), None => None },
        ),
{
    if let Some(b) = body_operator {
        let t = trimmed(b);
        if t.len() > 0 {
            return string_of(&t);
        }
    }
    match &op.actor {
        Some(h) => h.clone(),
        None => "operator".to_owned(),
    }
}

// ---------------------------------------------------------------------------
// Guards of the mutating endpoints
// ---------------------------------------------------------------------------

/// Body of the revoke endpoint.
#[derive(Debug)]
pub struct OperatorActorBody {
    pub operator: Option<String>,
    pub reason: Option<String>,
}

/// Body of the override-verify endpoint.
#[derive(Debug)]
pub struct OverrideVerifyBody {
    /// Required, non-empty: the recorded reason for the manual override.
    pub reason: String,
    pub operator: Option<String>,
}

/// Body of the retrigger endpoint.
#[derive(Debug)]
pub struct RetriggerBody {
    /// Role address to re-send the magic link to.
    pub email: String,
    pub operator: Option<String>,
}

/// Reply to a retrigger.
#[derive(Debug)]
pub struct RetriggerResponse {
    pub domain: String,
    pub state: String,
    pub method: String,
    pub email_sent_to: String,
}

/// Only a currently verified entity can be revoked (409 otherwise).
pub fn check_revocable(claim_status: &str) -> (r: Result<(), ApiError>)
    ensures
        claim_status@ == "verified"@ ==> r is Ok,
        claim_status@ != "verified"@ ==> (r matches Err(e) && error_view(e) == (409u16, "entity_not_revocable"@,
            "cannot revoke entity in '"@ + claim_status@ + "' state; only 'verified' entities can be revoked"@)),
{
    if str_eq(claim_status, "verified") {
        Ok(())
    } else {
        Err(
            api_error_msg(
                409,
                "entity_not_revocable",
                concat3("cannot revoke entity in '", claim_status, "' state; only 'verified' entities can be revoked"),
            ),
        )
    }
}

/// A manual override must record a non-blank reason (400 otherwise).
pub fn check_override_reason(reason: &str) -> (r: Result<(), ApiError>)
    ensures
        trim(reason@).len() > 0 ==> r is Ok,
        trim(reason@).len() == 0 ==> (r matches Err(e) && error_view(e) == (400u16, "reason_required"@,
            "override-verify requires a non-empty reason"@)),
{
    if trimmed(reason).len() > 0 {
        Ok(())
    } else {
        Err(api_error(400, "reason_required", "override-verify requires a non-empty reason"))
    }
}

/// The address a retrigger re-sends the magic link to: the trimmed email,
/// which must not be blank (400 otherwise).
pub fn retrigger_email(email: &str) -> (r: Result<String, ApiError>)
    ensures
        trim(email@).len() > 0 ==> (r matches Ok(e) && e@ == trim(email@)),
        trim(email@).len() == 0 ==> (r matches Err(e) && error_view(e) == (400u16, "email_required"@,
            "retrigger requires the role address to re-send the magic link to"@)),
{
    let t = trimmed(email);
    if t.len() > 0 {
        Ok(string_of(&t))
    } else {
        Err(api_error(400, "email_required", "retrigger requires the role address to re-send the magic link to"))
    }
}

/// The message of a failed magic-link dispatch (502), with the mailer's
/// `detail`.
pub fn email_dispatch_message(detail: &str) -> (m: String)
    ensures
        m@ == "verification challenge created, but the magic-link email could not be sent ("@ + detail@
            + "); SMTP may not be configured"@,
{
    concat3(
        "verification challenge created, but the magic-link email could not be sent (",
        detail,
        "); SMTP may not be configured",
    )
}

// ---------------------------------------------------------------------------
// KEK crypto-shred decision
// ---------------------------------------------------------------------------

/// Which projects own identified contributions for a domain.
#[derive(Debug)]
pub enum EntityProjectMapping {
    NoProject,
    Unique(String),
    Ambiguous { project_ids: Vec<String> },
}

/// Outcome of [`decide_kek_action`].
#[derive(Debug, PartialEq, Eq)]
pub enum KekAction {
    Destroy { project_id: String },
    Skip { reason: String },
}

pub open spec fn ambiguous_reason(ids: Seq<Seq<char>>) -> Seq<char> {
    "domain maps to "@ + dec(ids.len()) + " projects ("@ + join_with(ids, ", "@)
        + "); destroying any one KEK could shred unrelated contributors — refusing to guess"@
}

/// The KEK crypto-shred decision: destroy only for an unambiguous
/// single-project mapping, never guess for zero or several projects.
pub fn decide_kek_action(mapping: &EntityProjectMapping) -> (a: KekAction)
    ensures
        match mapping {
            EntityProjectMapping::Unique(p) => a matches KekAction::Destroy { project_id } && project_id@ == p@,
            EntityProjectMapping::NoProject => a matches KekAction::Skip { reason } && reason@
                == "no identified contribution links this domain to a project, so there is no project KEK to crypto-shred"@,
            EntityProjectMapping::Ambiguous { project_ids } => a matches KekAction::Skip { reason } && reason@
                == ambiguous_reason(strings_view(project_ids@)),
        },
{
    match mapping {
        EntityProjectMapping::Unique(p) => KekAction::Destroy { project_id: p.clone() },
        EntityProjectMapping::NoProject => KekAction::Skip {
            reason: "no identified contribution links this domain to a project, so there is no project KEK to crypto-shred".to_owned(),
        },
        EntityProjectMapping::Ambiguous { project_ids } => {
            let mut r: Vec<char> = chars_of("domain maps to ");
            push_dec(&mut r, project_ids.len() as u64);
            push_str(&mut r, " projects (");
            let joined = join_strings(project_ids, ", ");
            push_str(&mut r, joined.as_str());
            push_str(&mut r, "); destroying any one KEK could shred unrelated contributors — refusing to guess");
            assert(strings_view(project_ids@).len() == project_ids@.len());
            KekAction::Skip { reason: string_of(&r) }
        },
    }
}

/// Law: a KEK is destroyed only for a unique mapping, and then exactly that
/// project's.
pub proof fn lemma_kek_destroyed_only_for_unique(mapping: EntityProjectMapping, a: KekAction)
    requires
        match mapping {
            EntityProjectMapping::Unique(p) => a matches KekAction::Destroy { project_id } && project_id@ == p@,
            _ => a is Skip,
        },
    ensures
        a matches KekAction::Destroy { project_id } ==> (mapping matches EntityProjectMapping::Unique(p) && p@ == project_id@),
{
}

/// `kek_destroyed` and `kek_skip_reason` of an erase, from the decision and,
/// when a destroy was attempted, its outcome.
pub fn kek_outcome(action: KekAction, destroy: Result<(), String>) -> (r: (bool, Option<String>))
    ensures
        match action {
            KekAction::Skip { reason } => r.0 == false && r.1 == Some(reason),
            KekAction::Destroy { .. } => match destroy {
                Ok(()) => r.0 == true && r.1 is None,
                Err(e) => r.0 == false && (r.1 matches Some(m) && m@ == "KEK destroy failed: "@ + e@),
            },
        },
{
    match action {
        KekAction::Skip { reason } => (false, Some(reason)),
        KekAction::Destroy { .. } => match destroy {
            Ok(()) => (true, None),
            Err(e) => {
                proof {
                    reveal_strlit("");
                }
                (false, Some(concat3("KEK destroy failed: ", e.as_str(), "")))
            },
        },
    }
}

// ---------------------------------------------------------------------------
// The erase confirm token
// ---------------------------------------------------------------------------

/// What HMAC-SHA256 (`hmac::Hmac<sha2::Sha256>`) computes for `key` over
/// `msg`.
pub uninterp spec fn hmac_sha256_tag(key: Seq<u8>, msg: Seq<u8>) -> Seq<u8>;

/// HMAC-SHA256 of `msg` under `key`: a 32-byte tag, a function of the key
/// and the message alone. Keys of any length are accepted.
#[verifier::external_body]
fn hmac_sha256(key: &[u8], msg: &[u8]) -> (tag: Vec<u8>)
    ensures
        tag@ == hmac_sha256_tag(key@, msg@),
        tag@.len() == 32,
{
    let mut mac = <Hmac<Sha256> as Mac>::new_from_slice(key).expect("HMAC accepts any key length");
    mac.update(msg);
    mac.finalize().into_bytes().to_vec()
}

/// The lowercase hexadecimal digit of `d`.
pub open spec fn hex_digit(d: int) -> char {
    if d < 10 {
        (d + 48) as char
    } else {
        (d - 10 + 97) as char
    }
}

/// Lowercase hex of bytes, two digits per byte, high nibble first.
pub open spec fn hex_lower(b: Seq<u8>) -> Seq<char>
    decreases b.len(),
{
    if b.len() == 0 {
        Seq::empty()
    } else {
        hex_lower(b.drop_last()) + seq![hex_digit((b.last() / 16) as int), hex_digit((b.last() % 16) as int)]
    }
}

/// `hex::encode`: lowercase hexadecimal, two digits per byte, high nibble
/// first.
#[verifier::external_body]
fn hex_encode(bytes: &[u8]) -> (s: String)
    ensures
        s@ == hex_lower(bytes@),
{
    hex::encode(bytes)
}

/// A field as it is signed: its length in characters, `:`, then the field,
/// so that no choice of field text can shift where the next field begins.
pub open spec fn framed(field: Seq<char>) -> Seq<char> {
    dec(field.len()) + ":"@ + field
}

/// The signed text: `<len>:<domain>|<len>:<actor>|<expiry>`.
pub open spec fn token_text(domain: Seq<char>, actor: Seq<char>, expiry: u64) -> Seq<char> {
    framed(domain) + "|"@ + framed(actor) + "|"@ + dec(expiry as nat)
}

/// The signed message: the token text as UTF-8 bytes.
pub open spec fn token_message(domain: Seq<char>, actor: Seq<char>, expiry: u64) -> Seq<u8> {
    vstd::utf8::encode_utf8(token_text(domain, actor, expiry))
}

/// The signature part of a confirm token.
pub open spec fn token_mac(key: Seq<u8>, domain: Seq<char>, actor: Seq<char>, expiry: u64) -> Seq<char> {
    hex_lower(hmac_sha256_tag(key, token_message(domain, actor, expiry)))
}

/// A confirm token: `hex(HMAC(key, message)) . expiry`.
pub open spec fn confirm_token(key: Seq<u8>, domain: Seq<char>, actor: Seq<char>, expiry: u64) -> Seq<char> {
    token_mac(key, domain, actor, expiry) + "."@ + dec(expiry as nat)
}

/// Whether `token` confirms an erase of `domain` by `actor` at `now`: split
/// at its last `.`, the tail is a decimal expiry not before `now`, and the
/// head is the signature of `(domain, actor, expiry)`.
pub open spec fn token_valid(key: Seq<u8>, token: Seq<char>, domain: Seq<char>, actor: Seq<char>, now: u64) -> bool {
    match last_index(token, '.') {
        None => false,
        Some(i) => match parse_u64(token.subrange(i + 1, token.len() as int)) {
            None => false,
            Some(expiry) => expiry >= now && token.subrange(0, i) == token_mac(key, domain, actor, expiry),
        },
    }
}

fn push_bytes(out: &mut Vec<u8>, b: &[u8])
    ensures
        final(out)@ == old(out)@ + b@,
{
    let mut i: usize = 0;
    while i < b.len()
        invariant
            i <= b.len(),
            out@ == old(out)@ + b@.subrange(0, i as int),
        decreases b.len() - i,
    {
        out.push(b[i]);
        assert(b@.subrange(0, i + 1) =~= b@.subrange(0, i as int).push(b@[i as int]));
        i = i + 1;
    }
    assert(b@.subrange(0, b@.len() as int) =~= b@);
}

/// The signature part of a confirm token.
pub fn sign(key: &[u8], domain: &str, actor: &str, expiry: u64) -> (mac: String)
    ensures
        mac@ == token_mac(key@, domain@, actor@, expiry),
{
    let mut t: Vec<char> = Vec::new();
    push_dec(&mut t, domain.unicode_len() as u64);
    push_str(&mut t, ":");
    push_str(&mut t, domain);
    push_str(&mut t, "|");
    push_dec(&mut t, actor.unicode_len() as u64);
    push_str(&mut t, ":");
    push_str(&mut t, actor);
    push_str(&mut t, "|");
    push_dec(&mut t, expiry);
    proof {
        reveal_strlit(":");
        reveal_strlit("|");
        assert(t@ =~= token_text(domain@, actor@, expiry));
    }
    let text = string_of(&t);
    let msg = text.as_str().as_bytes();
    let tag = hmac_sha256(key, msg);
    hex_encode(tag.as_slice())
}

/// Mints a confirm token valid for `ERASE_TOKEN_TTL_SECS` from `now`.
pub fn mint_confirm_token(key: &[u8], domain: &str, actor: &str, now: u64) -> (token: String)
    requires
        now + ERASE_TOKEN_TTL_SECS <= u64::MAX,
    ensures
        token@ == confirm_token(key@, domain@, actor@, (now + ERASE_TOKEN_TTL_SECS) as u64),
{
    let expiry = now + ERASE_TOKEN_TTL_SECS;
    let mac = sign(key, domain, actor, expiry);
    let mut v: Vec<char> = chars_of(mac.as_str());
    push_str(&mut v, ".");
    push_dec(&mut v, expiry);
    string_of(&v)
}

/// Checks a confirm token against `(domain, actor)` at `now`.
pub fn verify_confirm_token(key: &[u8], token: &str, domain: &str, actor: &str, now: u64) -> (ok: bool)
    ensures
        ok == token_valid(key@, token@, domain@, actor@, now),
{
    let t = chars_of(token);
    let found = crate::text::find_last(&t, '.');
    let dot = match found {
        Some(i) => i,
        None => return false,
    };
    assert(dot < t.len());
    let mut tail: Vec<char> = Vec::new();
    let mut k: usize = dot + 1;
    assert(t@.subrange(dot + 1, dot + 1) =~= Seq::<char>::empty());
    while k < t.len()
        invariant
            dot < t.len(),
            dot + 1 <= k <= t.len(),
            tail@ == t@.subrange(dot + 1, k as int),
        decreases t.len() - k,
    {
        tail.push(t[k]);
        assert(t@.subrange(dot + 1, k + 1) =~= t@.subrange(dot + 1, k as int).push(t@[k as int]));
        k = k + 1;
    }
    let expiry = match parse_u64_chars(&tail) {
        Some(e) => e,
        None => return false,
    };
    if expiry < now {
        return false;
    }
    let mut head: Vec<char> = Vec::new();
    let mut j: usize = 0;
    while j < dot
        invariant
            dot < t.len(),
            j <= dot,
            head@ == t@.subrange(0, j as int),
        decreases dot - j,
    {
        head.push(t[j]);
        assert(t@.subrange(0, j + 1) =~= t@.subrange(0, j as int).push(t@[j as int]));
        j = j + 1;
    }
    let expected = sign(key, domain, actor, expiry);
    let mac_hex = string_of(&head);
    ct_eq_str(expected.as_str(), mac_hex.as_str())
}


proof fn lemma_last_index_before_suffix(x: Seq<char>, y: Seq<char>, c: char)
    requires
        x.len() > 0,
        x.last() == c,
        forall|i: int| 0 <= i < y.len() ==> y[i] != c,
    ensures
        last_index(x + y, c) == Some(x.len() - 1),
    decreases y.len(),
{
    if y.len() == 0 {
        assert(x + y =~= x);
    } else {
        assert((x + y).last() == y.last());
        assert((x + y).drop_last() =~= x + y.drop_last());
        lemma_last_index_before_suffix(x, y.drop_last(), c);
    }
}

/// Law: a freshly minted confirm token confirms the erase of the same
/// domain by the same actor at any time up to its expiry, and at no time
/// after it.
pub proof fn lemma_confirm_token_round_trip(key: Seq<u8>, domain: Seq<char>, actor: Seq<char>, now: u64, later: u64)
    requires
        now + ERASE_TOKEN_TTL_SECS <= u64::MAX,
    ensures
        token_valid(key, confirm_token(key, domain, actor, (now + ERASE_TOKEN_TTL_SECS) as u64), domain, actor, later)
            == (later <= now + ERASE_TOKEN_TTL_SECS),
{
    let expiry = (now + ERASE_TOKEN_TTL_SECS) as u64;
    let mac = token_mac(key, domain, actor, expiry);
    let x = mac + "."@;
    let y = dec(expiry as nat);
    let token = confirm_token(key, domain, actor, expiry);
    reveal_strlit(".");
    assert(token =~= x + y);
    crate::text::lemma_dec_round_trip(expiry as nat);
    assert forall|i: int| 0 <= i < y.len() implies y[i] != '.' by {
        assert(crate::text::is_ascii_digit(y[i]));
    }
    lemma_last_index_before_suffix(x, y, '.');
    let i = x.len() - 1;
    assert(token.subrange(i + 1, token.len() as int) =~= y);
    assert(token.subrange(0, i) =~= mac);
    crate::text::lemma_parse_dec_u64(expiry);
}


proof fn lemma_framed_split(f1: Seq<char>, r1: Seq<char>, f2: Seq<char>, r2: Seq<char>)
    requires
        framed(f1) + r1 == framed(f2) + r2,
    ensures
        f1 == f2,
        r1 == r2,
{
    let x = framed(f1) + r1;
    let y = framed(f2) + r2;
    let p1 = dec(f1.len());
    let p2 = dec(f2.len());
    crate::text::lemma_dec_round_trip(f1.len());
    crate::text::lemma_dec_round_trip(f2.len());
    reveal_strlit(":");
    assert(x =~= p1 + (seq![':'] + f1 + r1));
    assert(y =~= p2 + (seq![':'] + f2 + r2));
    if p1.len() < p2.len() {
        assert(x[p1.len() as int] == ':');
        assert(y[p1.len() as int] == p2[p1.len() as int]);
        assert(crate::text::is_ascii_digit(p2[p1.len() as int]));
    }
    if p2.len() < p1.len() {
        assert(y[p2.len() as int] == ':');
        assert(x[p2.len() as int] == p1[p2.len() as int]);
        assert(crate::text::is_ascii_digit(p1[p2.len() as int]));
    }
    assert(p1 =~= x.subrange(0, p1.len() as int));
    assert(p2 =~= y.subrange(0, p2.len() as int));
    assert(f1.len() == f2.len());
    let k: int = p1.len() as int + 1;
    assert(f1 =~= x.subrange(k, k + f1.len() as int));
    assert(f2 =~= y.subrange(k, k + f2.len() as int));
    assert(r1 =~= x.subrange(k + f1.len() as int, x.len() as int));
    assert(r2 =~= y.subrange(k + f2.len() as int, y.len() as int));
}

/// Different `(domain, actor, expiry)` triples are signed as different
/// messages: the length framing leaves no two ways to read one message.
pub proof fn lemma_token_message_injective(
    d1: Seq<char>,
    a1: Seq<char>,
    e1: u64,
    d2: Seq<char>,
    a2: Seq<char>,
    e2: u64,
)
    requires
        token_message(d1, a1, e1) == token_message(d2, a2, e2),
    ensures
        d1 == d2,
        a1 == a2,
        e1 == e2,
{
    let t1 = token_text(d1, a1, e1);
    let t2 = token_text(d2, a2, e2);
    vstd::utf8::encode_utf8_decode_utf8(t1);
    vstd::utf8::encode_utf8_decode_utf8(t2);
    assert(t1 == t2);
    reveal_strlit("|");
    let s1 = seq!['|'] + framed(a1) + (seq!['|'] + dec(e1 as nat));
    let s2 = seq!['|'] + framed(a2) + (seq!['|'] + dec(e2 as nat));
    assert(t1 =~= framed(d1) + s1);
    assert(t2 =~= framed(d2) + s2);
    lemma_framed_split(d1, s1, d2, s2);
    assert(s1.drop_first() =~= framed(a1) + (seq!['|'] + dec(e1 as nat)));
    assert(s2.drop_first() =~= framed(a2) + (seq!['|'] + dec(e2 as nat)));
    lemma_framed_split(a1, seq!['|'] + dec(e1 as nat), a2, seq!['|'] + dec(e2 as nat));
    assert((seq!['|'] + dec(e1 as nat)).drop_first() =~= dec(e1 as nat));
    assert((seq!['|'] + dec(e2 as nat)).drop_first() =~= dec(e2 as nat));
    crate::text::lemma_dec_round_trip(e1 as nat);
    crate::text::lemma_dec_round_trip(e2 as nat);
}

proof fn lemma_hex_lower_len(b: Seq<u8>)
    ensures
        hex_lower(b).len() == 2 * b.len(),
    decreases b.len(),
{
    if b.len() > 0 {
        lemma_hex_lower_len(b.drop_last());
    }
}

proof fn lemma_hex_digit_injective(x: int, y: int)
    requires
        0 <= x < 16,
        0 <= y < 16,
        hex_digit(x) == hex_digit(y),
    ensures
        x == y,
{
    assert(hex_digit(x) as int == if x < 10 { x + 48 } else { x + 87 });
    assert(hex_digit(y) as int == if y < 10 { y + 48 } else { y + 87 });
}

/// Lowercase hex tells bytes apart.
proof fn lemma_hex_lower_injective(b1: Seq<u8>, b2: Seq<u8>)
    requires
        hex_lower(b1) == hex_lower(b2),
    ensures
        b1 == b2,
    decreases b1.len(),
{
    lemma_hex_lower_len(b1);
    lemma_hex_lower_len(b2);
    if b1.len() > 0 {
        let h1 = hex_lower(b1);
        let p1 = hex_lower(b1.drop_last());
        let p2 = hex_lower(b2.drop_last());
        lemma_hex_lower_len(b1.drop_last());
        lemma_hex_lower_len(b2.drop_last());
        assert(p1 =~= h1.subrange(0, h1.len() - 2));
        assert(p2 =~= h1.subrange(0, h1.len() - 2));
        lemma_hex_lower_injective(b1.drop_last(), b2.drop_last());
        let x = b1.last();
        let y = b2.last();
        assert(h1[h1.len() - 2] == hex_digit((x / 16) as int));
        assert(h1[h1.len() - 2] == hex_digit((y / 16) as int));
        assert(h1[h1.len() - 1] == hex_digit((x % 16) as int));
        assert(h1[h1.len() - 1] == hex_digit((y % 16) as int));
        lemma_hex_digit_injective((x / 16) as int, (y / 16) as int);
        lemma_hex_digit_injective((x % 16) as int, (y % 16) as int);
        assert(x == y);
        assert(b1 =~= b1.drop_last().push(x));
        assert(b2 =~= b2.drop_last().push(y));
    }
}

/// Law: a confirm token minted for one `(domain, actor)` pair passes for
/// another pair only if HMAC-SHA256 under the key gives two different
/// messages the same tag.
pub proof fn lemma_confirm_token_bound(
    key: Seq<u8>,
    d1: Seq<char>,
    a1: Seq<char>,
    d2: Seq<char>,
    a2: Seq<char>,
    expiry: u64,
    now: u64,
)
    requires
        token_valid(key, confirm_token(key, d1, a1, expiry), d2, a2, now),
        d1 != d2 || a1 != a2,
    ensures
        token_message(d1, a1, expiry) != token_message(d2, a2, expiry),
        hmac_sha256_tag(key, token_message(d1, a1, expiry)) == hmac_sha256_tag(key, token_message(d2, a2, expiry)),
{
    let mac = token_mac(key, d1, a1, expiry);
    let x = mac + "."@;
    let y = dec(expiry as nat);
    let token = confirm_token(key, d1, a1, expiry);
    reveal_strlit(".");
    assert(token =~= x + y);
    crate::text::lemma_dec_round_trip(expiry as nat);
    assert forall|i: int| 0 <= i < y.len() implies y[i] != '.' by {
        assert(crate::text::is_ascii_digit(y[i]));
    }
    lemma_last_index_before_suffix(x, y, '.');
    let i = x.len() - 1;
    assert(token.subrange(i + 1, token.len() as int) =~= y);
    assert(token.subrange(0, i) =~= mac);
    crate::text::lemma_parse_dec_u64(expiry);
    lemma_hex_lower_injective(
        hmac_sha256_tag(key, token_message(d1, a1, expiry)),
        hmac_sha256_tag(key, token_message(d2, a2, expiry)),
    );
    if token_message(d1, a1, expiry) == token_message(d2, a2, expiry) {
        lemma_token_message_injective(d1, a1, expiry, d2, a2, expiry);
    }
}

// ---------------------------------------------------------------------------
// The two-step erase
// ---------------------------------------------------------------------------

/// Body of the erase endpoint.
#[derive(Debug)]
pub struct EraseBody {
    /// Confirm token from the first (token-less) call. When absent, the call
    /// returns a fresh short-lived token and erases nothing.
    pub confirm_token: Option<String>,
    pub operator: Option<String>,
}

/// First-step reply: the token to present on the second call.
#[derive(Debug)]
pub struct EraseChallenge {
    pub domain: String,
    pub confirm_required: bool,
    pub confirm_token: String,
    pub expires_in_secs: u64,
}

/// Second-step reply: what was erased and whether the KEK was shredded.
#[derive(Debug)]
pub struct EraseResult {
    pub domain: String,
    pub erased: bool,
    pub entity_rows: u64,
    pub attempt_rows: u64,
    pub dispute_rows: u64,
    /// True only when an unambiguous entity→project mapping existed and the
    /// KEK was crypto-shredded.
    pub kek_destroyed: bool,
    pub kek_skip_reason: Option<String>,
}

/// Either step's reply.
#[derive(Debug)]
pub enum EraseResponse {
    Challenge(EraseChallenge),
    Result(EraseResult),
}

/// The key that signs confirm tokens: the operator credential (trimmed)
/// as bytes; without one the operator surface is disabled (503).
pub fn operator_signing_key(configured: Option<&str>) -> (r: Result<Vec<u8>, ApiError>)
    ensures
        match configured {
            Some(v) if trim(v@).len() > 0 => r matches Ok(k) && k@ == vstd::utf8::encode_utf8(trim(v@)),
            _ => r matches Err(e) && error_view(e) == (503u16, "operator_surface_disabled"@,
                "ANSEO_OPERATOR_API_KEY is not configured"@),
        },
{
    if let Some(v) = configured {
        let t = trimmed(v);
        if t.len() > 0 {
            let s = string_of(&t);
            let mut k: Vec<u8> = Vec::new();
            push_bytes(&mut k, s.as_str().as_bytes());
            assert(k@ =~= vstd::utf8::encode_utf8(trim(v@)));
            return Ok(k);
        }
    }
    Err(api_error(503, "operator_surface_disabled", "ANSEO_OPERATOR_API_KEY is not configured"))
}

/// What the erase endpoint does after the entity was found.
#[derive(Debug)]
pub enum EraseStep {
    /// No token was presented: answer with a fresh challenge, erase nothing.
    Challenge(EraseChallenge),
    /// The token confirms this erase: resolve the mapping and erase.
    Proceed,
    /// The token does not confirm it: 401.
    Refuse(ApiError),
}

pub open spec fn invalid_token_message() -> Seq<char> {
    "the confirm token is missing, expired, or not bound to this (domain, operator); request a fresh token by calling erase without a confirm_token"@
}

/// The first decision of an erase at `now`: a blank or absent token gets a
/// challenge; a present one must confirm `(domain, actor)`.
pub fn erase_step(key: &[u8], domain: &str, actor: &str, confirm: Option<&str>, now: u64) -> (r: EraseStep)
    requires
        now + ERASE_TOKEN_TTL_SECS <= u64::MAX,
    ensures
        match confirm {
            Some(t) if trim(t@).len() > 0 => if token_valid(key@, t@, domain@, actor@, now) {
                r is Proceed
            } else {
                r matches EraseStep::Refuse(e) && error_view(e) == (401u16, "invalid_confirm_token"@, invalid_token_message())
            },
            _ => r matches EraseStep::Challenge(c) && c.domain@ == domain@ && c.confirm_required
                && c.confirm_token@ == confirm_token(key@, domain@, actor@, (now + ERASE_TOKEN_TTL_SECS) as u64)
                && c.expires_in_secs == ERASE_TOKEN_TTL_SECS,
        },
{
    let presented: Option<&str> = match confirm {
        Some(t) => if trimmed(t).len() > 0 { Some(t) } else { None },
        None => None,
    };
    match presented {
        None => EraseStep::Challenge(
            EraseChallenge {
                domain: domain.to_owned(),
                confirm_required: true,
                confirm_token: mint_confirm_token(key, domain, actor, now),
                expires_in_secs: ERASE_TOKEN_TTL_SECS,
            },
        ),
        Some(t) => if verify_confirm_token(key, t, domain, actor, now) {
            EraseStep::Proceed
        } else {
            EraseStep::Refuse(
                api_error(
                    401,
                    "invalid_confirm_token",
                    "the confirm token is missing, expired, or not bound to this (domain, operator); request a fresh token by calling erase without a confirm_token",
                ),
            )
        },
    }
}

/// Row counts of an erase.
#[derive(Debug, Clone, Copy)]
pub struct EraseCounts {
    pub entity_rows: u64,
    pub attempt_rows: u64,
    pub dispute_rows: u64,
}

/// The second-step reply.
pub fn erase_result(domain: String, counts: EraseCounts, kek: (bool, Option<String>)) -> (r: EraseResult)
    ensures
        r.domain == domain,
        r.erased,
        r.entity_rows == counts.entity_rows,
        r.attempt_rows == counts.attempt_rows,
        r.dispute_rows == counts.dispute_rows,
        r.kek_destroyed == kek.0,
        r.kek_skip_reason == kek.1,
{
    EraseResult {
        domain,
        erased: true,
        entity_rows: counts.entity_rows,
        attempt_rows: counts.attempt_rows,
        dispute_rows: counts.dispute_rows,
        kek_destroyed: kek.0,
        kek_skip_reason: kek.1,
    }
}

} // verus!
