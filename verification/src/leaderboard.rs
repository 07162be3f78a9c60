//! Named brand-visibility leaderboard: the feature flag, the query window and
//! category filter, and the attribution every ranked entry carries.

use vstd::prelude::*;

use crate::text::{chars_of, is_lit, push_str, string_of, to_lowercase, unicode_lower};

verus! {

/// Least number of distinct contributors a segment needs to be shown.
pub const K_FLOOR: i64 = 5;

/// Methodology version stamped on every attribution block.
pub const METHODOLOGY_VERSION: &'static str = "anseo-v1.0";

/// Tooltip of the verified chip.
pub const VERIFIED_CHIP_TOOLTIP: &'static str = "Domain ownership verified \u{2014} not a quality endorsement.";

/// A feature flag's setting turns it on: `true`, `1` or `yes`, in any case.
pub open spec fn flag_on(raw: Option<Seq<char>>) -> bool {
    let v = unicode_lower(
        match raw {
            Some(s) => s,
            None => Seq::empty(),
        },
    );
    v == "true"@ || v == "1"@ || v == "yes"@
}

/// Whether a feature flag whose setting is `raw` (unset: `None`) is on.
pub fn feature_flag_on(raw: Option<&str>) -> (r: bool)
    ensures
        r == flag_on(
            match raw {
                Some(s) => Some(s@),
                None => None,
            },
        ),
{
    let lower = match raw {
        Some(s) => to_lowercase(s),
        None => to_lowercase(""),
    };
    proof {
        reveal_strlit("");
        assert(""@ =~= Seq::<char>::empty());
    }
    let v = chars_of(lower.as_str());
    is_lit(&v, "true") || is_lit(&v, "1") || is_lit(&v, "yes")
}

/// Query of the leaderboard.
#[derive(Debug)]
pub struct LeaderboardQuery {
    pub category: Option<String>,
    /// Time window in days. Defaults to 30.
    pub days: Option<i32>,
}

/// Attribution metadata of a ranked entry.
#[derive(Debug, Clone)]
pub struct AttributionMeta {
    pub contribution_window_days: i32,
    pub contributor_count: i64,
    pub methodology_version: &'static str,
    pub as_measured_date: String,
}

/// Error answer of the leaderboard.
#[derive(Debug)]
pub struct LeaderboardError {
    pub error: &'static str,
    pub message: String,
}

/// The answer while the leaderboard flag is off (403).
pub fn feature_disabled() -> (e: LeaderboardError)
    ensures
        e.error@ == "feature_disabled"@,
        e.message@ == "The named brand leaderboard is not currently enabled. Set ANSEO_NAMED_BRAND_LEADERBOARD=true to activate."@,
{
    LeaderboardError {
        error: "feature_disabled",
        message: "The named brand leaderboard is not currently enabled. Set ANSEO_NAMED_BRAND_LEADERBOARD=true to activate.".to_string(),
    }
}

/// The window in days: the requested one or 30, clamped into [1, 365].
pub fn leaderboard_days(q: &LeaderboardQuery) -> (d: i32)
    ensures
        d == (match q.days {
            None => 30,
            Some(d) => if d < 1 { 1 } else if d > 365 { 365 } else { d as int },
        }),
{
    let d = match q.days {
        Some(d) => d,
        None => 30,
    };
    if d < 1 {
        1
    } else if d > 365 {
        365
    } else {
        d
    }
}

/// `s` with each single quote doubled, as an SQL string literal needs.
pub open spec fn sql_quoted(s: Seq<char>) -> Seq<char>
    decreases s.len(),
{
    if s.len() == 0 {
        Seq::empty()
    } else {
        sql_quoted(s.drop_last()) + if s.last() == '\'' {
            seq!['\'', '\'']
        } else {
            seq![s.last()]
        }
    }
}

/// The SQL condition of the category filter: `TRUE` without one, otherwise
/// `category = '<filter>'` with the filter's quotes doubled.
pub fn category_clause(filter: &str) -> (c: String)
    ensures
        filter@.len() == 0 ==> c@ == "TRUE"@,
        filter@.len() > 0 ==> c@ == "category = '"@ + sql_quoted(filter@) + "'"@,
{
    let f = chars_of(filter);
    if f.len() == 0 {
        return "TRUE".to_string();
    }
    let mut out: Vec<char> = Vec::new();
    push_str(&mut out, "category = '");
    let ghost head = out@;
    let mut i: usize = 0;
    while i < f.len()
        invariant
            f@ == filter@,
            i <= f@.len(),
            out@ == head + sql_quoted(f@.take(i as int)),
        decreases f@.len() - i,
    {
        proof {
            assert(f@.take(i + 1).drop_last() == f@.take(i as int));
            assert(f@.take(i + 1).last() == f@[i as int]);
        }
        let c = f[i];
        out.push(c);
        if c == '\'' {
            out.push('\'');
        }
        i = i + 1;
    }
    assert(f@.take(f@.len() as int) == f@);
    push_str(&mut out, "'");
    string_of(&out)
}

/// The attribution of an entry ranked over a `days` window from
/// `contributor_count` contributors, as measured on `date`.
pub fn attribution(days: i32, contributor_count: i64, date: String) -> (a: AttributionMeta)
    ensures
        a.contribution_window_days == days,
        a.contributor_count == contributor_count,
        a.methodology_version@ == METHODOLOGY_VERSION@,
        a.as_measured_date == date,
{
    AttributionMeta {
        contribution_window_days: days,
        contributor_count,
        methodology_version: METHODOLOGY_VERSION,
        as_measured_date: date,
    }
}

} // verus!
