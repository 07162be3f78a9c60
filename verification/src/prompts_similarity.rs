//! Prompt similarity lookup: the limits a query is held to.

use vstd::prelude::*;

verus! {

/// Longest input text, in characters.
pub const MAX_INPUT_CHARS: usize = 4096;
/// Default similarity threshold, in hundredths (0.6).
pub const DEFAULT_THRESHOLD_HUNDREDTHS: u32 = 60;
/// Matches returned when the query names no limit.
pub const DEFAULT_LIMIT: usize = 10;
/// Most matches returned.
pub const MAX_LIMIT: usize = 50;

/// The input text must be non-empty and at most `MAX_INPUT_CHARS` characters.
pub fn similarity_text_ok(text: &str) -> (r: bool)
    ensures
        r == (0 < text@.len() <= MAX_INPUT_CHARS),
{
    let n = text.unicode_len();
    0 < n && n <= MAX_INPUT_CHARS
}

/// The number of matches to return: the requested limit or 10, capped at 50;
/// `None` (a 400) when that is 0.
pub fn similarity_limit(requested: Option<usize>) -> (r: Option<usize>)
    ensures
        ({
            let l: int = match requested {
                Some(l) => if l < MAX_LIMIT { l as int } else { MAX_LIMIT as int },
                None => DEFAULT_LIMIT as int,
            };
            match r {
                Some(v) => l > 0 && v == l,
                None => l == 0,
            }
        }),
{
    let l = match requested {
        Some(l) => if l < MAX_LIMIT {
            l
        } else {
            MAX_LIMIT
        },
        None => DEFAULT_LIMIT,
    };
    if l == 0 {
        None
    } else {
        Some(l)
    }
}

/// The default limit lies within the cap.
pub proof fn lemma_default_limit_under_cap()
    ensures
        DEFAULT_LIMIT <= MAX_LIMIT,
        DEFAULT_THRESHOLD_HUNDREDTHS <= 100,
{
}

} // verus!
