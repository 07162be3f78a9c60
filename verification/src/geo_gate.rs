//! Geo-gating of the identified tier: requests to identified-tier endpoints
//! from a high-friction jurisdiction are refused 403; every other endpoint,
//! and every request whose origin cannot be told, passes.

use vstd::prelude::*;

use crate::errors::{api_error, ApiError};
use crate::text::{
    chars_of, split_chars, split_pieces, starts_with, starts_with_chars, str_eq, string_of, strings_view, to_uppercase,
    trim, trimmed, unicode_upper, vecs_view,
};

verus! {

/// The blocklist used when the operator configured none.
pub const DEFAULT_HIGH_FRICTION_JURISDICTIONS: &'static str = "CN,IN,BR";

/// The identified-tier endpoint prefixes.
pub open spec fn identified_prefixes() -> Seq<Seq<char>> {
    seq![
        "/v1/benchmark/contributions"@,
        "/v1/claim"@,
        "/v1/benchmark/optin"@,
        "/v1/benchmark/brands/leaderboard"@,
    ]
}

/// Whether `path` lies in the identified tier.
pub open spec fn identified_tier(path: Seq<char>) -> bool {
    exists|i: int| 0 <= i < identified_prefixes().len() && starts_with(path, #[trigger] identified_prefixes()[i])
}

/// Whether this path is in the identified tier.
pub fn is_identified_tier(path: &str) -> (r: bool)
    ensures
        r == identified_tier(path@),
{
    let p = chars_of(path);
    let a = starts_with_chars(&p, &chars_of("/v1/benchmark/contributions"));
    let b = starts_with_chars(&p, &chars_of("/v1/claim"));
    let c = starts_with_chars(&p, &chars_of("/v1/benchmark/optin"));
    let d = starts_with_chars(&p, &chars_of("/v1/benchmark/brands/leaderboard"));
    proof {
        let ps = identified_prefixes();
        if a {
            assert(starts_with(path@, ps[0]));
        }
        if b {
            assert(starts_with(path@, ps[1]));
        }
        if c {
            assert(starts_with(path@, ps[2]));
        }
        if d {
            assert(starts_with(path@, ps[3]));
        }
    }
    a || b || c || d
}

/// The entries of a comma-separated jurisdiction list: trimmed, uppercased,
/// empty entries dropped.
pub open spec fn jurisdiction_codes(pieces: Seq<Seq<char>>) -> Seq<Seq<char>>
    decreases pieces.len(),
{
    if pieces.len() == 0 {
        Seq::empty()
    } else {
        let prev = jurisdiction_codes(pieces.drop_last());
        let c = unicode_upper(trim(pieces.last()));
        if c.len() > 0 {
            prev.push(c)
        } else {
            prev
        }
    }
}

/// The blocklist from the raw value of `ANSEO_HIGH_FRICTION_JURISDICTIONS`
/// (the default list when it is unset).
pub open spec fn blocklist_of(raw: Option<Seq<char>>) -> Seq<Seq<char>> {
    let r = match raw {
        Some(v) => v,
        None => DEFAULT_HIGH_FRICTION_JURISDICTIONS@,
    };
    jurisdiction_codes(split_pieces(r, ','))
}

/// The current jurisdiction blocklist, uppercased.
pub fn current_blocked_jurisdictions(raw: Option<&str>) -> (out: Vec<String>)
    ensures
        strings_view(out@) == blocklist_of(match raw { Some(v) => Some(v@), None => None }),
{
    let r: &str = match raw {
        Some(v) => v,
        None => DEFAULT_HIGH_FRICTION_JURISDICTIONS,
    };
    let pieces = split_chars(&chars_of(r), ',');
    let ghost pv = vecs_view(pieces@);
    let mut out: Vec<String> = Vec::new();
    let mut i: usize = 0;
    assert(pv.subrange(0, 0) =~= Seq::<Seq<char>>::empty());
    assert(strings_view(out@) =~= Seq::<Seq<char>>::empty());
    while i < pieces.len()
        invariant
            i <= pieces.len(),
            pv == vecs_view(pieces@),
            pieces@.len() == pv.len(),
            strings_view(out@) == jurisdiction_codes(pv.subrange(0, i as int)),
        decreases pieces.len() - i,
    {
        assert(pv.subrange(0, i + 1).drop_last() =~= pv.subrange(0, i as int));
        assert(pv[i as int] == pieces@[i as int]@);
        let t = string_of(&crate::text::trim_chars(&pieces[i]));
        let c = to_uppercase(t.as_str());
        if c.as_str().unicode_len() > 0 {
            let ghost before = strings_view(out@);
            out.push(c);
            assert(strings_view(out@) =~= before.push(unicode_upper(trim(pv[i as int]))));
        }
        i = i + 1;
    }
    assert(pv.subrange(0, pieces.len() as int) =~= pv);
    out
}

/// A two-byte country code read from a header value: trimmed, uppercased.
pub open spec fn header_code(v: Seq<char>) -> Seq<char> {
    unicode_upper(trim(v))
}

/// The origin country: the Cloudflare country header when it holds a
/// two-byte code other than the unknown (`XX`) and Tor (`T1`) markers, else
/// the operator's `X-Country-Code` header when it holds a two-byte code.
pub open spec fn country_of(cf: Option<Seq<char>>, xcc: Option<Seq<char>>) -> Option<Seq<char>> {
    if cf matches Some(v) && vstd::utf8::encode_utf8(header_code(v)).len() == 2 && header_code(v) != "XX"@
        && header_code(v) != "T1"@ {
        Some(header_code(cf.unwrap()))
    } else if xcc matches Some(v) && vstd::utf8::encode_utf8(header_code(v)).len() == 2 {
        Some(header_code(xcc.unwrap()))
    } else {
        None
    }
}

fn header_code_of(v: &str) -> (c: String)
    ensures
        c@ == header_code(v@),
{
    let t = string_of(&trimmed(v));
    to_uppercase(t.as_str())
}

/// Extracts the best-available country code from the two country headers.
pub fn extract_country_code(cf: Option<&str>, xcc: Option<&str>) -> (r: Option<String>)
    ensures
        match country_of(match cf { Some(v) => Some(v@), None => None }, match xcc { Some(v) => Some(v@), None => None }) {
            Some(c) => r matches Some(s) && s@ == c,
            None => r is None,
        },
{
    if let Some(v) = cf {
        let code = header_code_of(v);
        if code.as_str().as_bytes().len() == 2 && !str_eq(code.as_str(), "XX") && !str_eq(code.as_str(), "T1") {
            return Some(code);
        }
    }
    if let Some(v) = xcc {
        let code = header_code_of(v);
        if code.as_str().as_bytes().len() == 2 {
            return Some(code);
        }
    }
    None
}

pub open spec fn restricted_message() -> Seq<char> {
    "This feature is not currently available in your region. We are working to extend coverage — contact us for more information."@
}

/// The geo gate: an identified-tier request from a blocked jurisdiction is
/// refused 403 `jurisdiction_restricted`; everything else passes (`None`).
pub fn geo_gate(path: &str, blocklist: &Vec<String>, country: Option<&str>) -> (refused: Option<ApiError>)
    ensures
        (identified_tier(path@) && (country matches Some(c) && strings_view(blocklist@).contains(c@))) ==> (
            refused matches Some(e) && e.status == 403 && e.error@ == "jurisdiction_restricted"@
            && e.message@ == restricted_message()),
        !(identified_tier(path@) && (country matches Some(c) && strings_view(blocklist@).contains(c@))) ==> refused is None,
{
    if !is_identified_tier(path) {
        return None;
    }
    let c = match country {
        Some(c) => c,
        None => return None,
    };
    let ghost bv = strings_view(blocklist@);
    let mut i: usize = 0;
    while i < blocklist.len()
        invariant
            i <= blocklist.len(),
            bv == strings_view(blocklist@),
            identified_tier(path@),
            country == Some(c),
            forall|q: int| 0 <= q < i ==> bv[q] != c@,
        decreases blocklist.len() - i,
    {
        assert(bv[i as int] == blocklist@[i as int]@);
        if str_eq(blocklist[i].as_str(), c) {
            assert(bv[i as int] == c@);
            return Some(
                api_error(
                    403,
                    "jurisdiction_restricted",
                    "This feature is not currently available in your region. We are working to extend coverage — contact us for more information.",
                ),
            );
        }
        i = i + 1;
    }
    None
}

} // verus!
