//! Analytics queries: the windows and selectors that the citation-graph,
//! heatmap and volatility endpoints accept.

use vstd::prelude::*;

use crate::errors::{api_error, ApiError};
use crate::text::{string_of, trim, trimmed};

verus! {

/// Query with a window in days.
#[derive(Debug)]
pub struct WindowQuery {
    pub days: Option<i32>,
}

/// Query of the heatmap of one brand.
#[derive(Debug)]
pub struct HeatmapQuery {
    pub brand: String,
    pub days: Option<i32>,
}

/// Query of the volatility of one prompt, provider and brand.
#[derive(Debug)]
pub struct VolatilityQuery {
    pub prompt: String,
    pub provider: String,
    pub brand: String,
    pub window: Option<u32>,
}

/// The window in days (30 when the query names none): 400 `invalid_window`
/// outside [1, 365].
pub fn validate_days(value: Option<i32>) -> (r: Result<i32, ApiError>)
    ensures
        ({
            let v: int = match value {
                Some(v) => v as int,
                None => 30,
            };
            match r {
                Ok(d) => 1 <= v <= 365 && d == v,
                Err(e) => !(1 <= v <= 365) && e.status == 400 && e.error@ == "invalid_window"@
                    && e.message@ == "`days` must be in [1, 365]"@,
            }
        }),
{
    let v = match value {
        Some(v) => v,
        None => 30,
    };
    if v < 1 || v > 365 {
        return Err(api_error(400, "invalid_window", "`days` must be in [1, 365]"));
    }
    Ok(v)
}

/// The volatility window in samples (`default_samples` when the query names
/// none): 400 `invalid_window` outside [1, 365].
pub fn validate_window(value: Option<u32>, default_samples: u32) -> (r: Result<u32, ApiError>)
    ensures
        ({
            let v: int = match value {
                Some(v) => v as int,
                None => default_samples as int,
            };
            match r {
                Ok(w) => 1 <= v <= 365 && w == v,
                Err(e) => !(1 <= v <= 365) && e.status == 400 && e.error@ == "invalid_window"@
                    && e.message@ == "`window` must be in [1, 365]"@,
            }
        }),
{
    let v = match value {
        Some(v) => v,
        None => default_samples,
    };
    if v < 1 || v > 365 {
        return Err(api_error(400, "invalid_window", "`window` must be in [1, 365]"));
    }
    Ok(v)
}

/// Length of `s` in UTF-8 bytes.
pub open spec fn byte_len(s: Seq<char>) -> nat {
    vstd::utf8::encode_utf8(s).len()
}

/// The heatmap's brand, trimmed: 400 `invalid_brand` when blank or longer
/// than 256 bytes.
pub fn heatmap_brand(q: &HeatmapQuery) -> (r: Result<String, ApiError>)
    ensures
        ({
            let b = trim(q.brand@);
            match r {
                Ok(s) => 0 < b.len() && byte_len(b) <= 256 && s@ == b,
                Err(e) => (b.len() == 0 || byte_len(b) > 256) && e.status == 400 && e.error@ == "invalid_brand"@
                    && e.message@ == "`brand` must be a non-empty string \u{2264}256 bytes"@,
            }
        }),
{
    let b = string_of(&trimmed(q.brand.as_str()));
    if b.as_str().unicode_len() == 0 || b.as_str().as_bytes().len() > 256 {
        return Err(api_error(400, "invalid_brand", "`brand` must be a non-empty string \u{2264}256 bytes"));
    }
    Ok(b)
}

/// The volatility selector, each part trimmed: 400 `invalid_selector` when
/// one is blank, 400 `selector_too_long` when the prompt or brand exceeds 256
/// bytes or the provider 64.
pub fn volatility_selector(q: &VolatilityQuery) -> (r: Result<(String, String, String), ApiError>)
    ensures
        ({
            let p = trim(q.prompt@);
            let v = trim(q.provider@);
            let b = trim(q.brand@);
            let blank = p.len() == 0 || v.len() == 0 || b.len() == 0;
            let long = byte_len(p) > 256 || byte_len(v) > 64 || byte_len(b) > 256;
            match r {
                Ok((rp, rv, rb)) => !blank && !long && rp@ == p && rv@ == v && rb@ == b,
                Err(e) => e.status == 400 && if blank {
                    e.error@ == "invalid_selector"@
                        && e.message@ == "`prompt`, `provider`, and `brand` are all required and must be non-empty"@
                } else {
                    long && e.error@ == "selector_too_long"@
                        && e.message@ == "one of `prompt`/`provider`/`brand` exceeds its length cap"@
                },
            }
        }),
{
    let p = string_of(&trimmed(q.prompt.as_str()));
    let v = string_of(&trimmed(q.provider.as_str()));
    let b = string_of(&trimmed(q.brand.as_str()));
    if p.as_str().unicode_len() == 0 || v.as_str().unicode_len() == 0 || b.as_str().unicode_len() == 0 {
        return Err(
            api_error(
                400,
                "invalid_selector",
                "`prompt`, `provider`, and `brand` are all required and must be non-empty",
            ),
        );
    }
    if p.as_str().as_bytes().len() > 256 || v.as_str().as_bytes().len() > 64 || b.as_str().as_bytes().len() > 256 {
        return Err(
            api_error(400, "selector_too_long", "one of `prompt`/`provider`/`brand` exceeds its length cap"),
        );
    }
    Ok((p, v, b))
}

/// 500 when an analytics fetch failed; `what` names it.
pub fn analytics_failure(what: &str) -> (e: ApiError)
    ensures
        e.status == 500,
        e.error@ == "internal_error"@,
        e.message@ == what@,
{
    api_error(500, "internal_error", what)
}

} // verus!
