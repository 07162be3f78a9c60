//! Citation summary: the query window and page size, the per-domain sample
//! run ids, and the filling of missing samples from a lookup of citation rows.

use vstd::prelude::*;

use crate::text::strings_view;

verus! {

/// Page size when the query names none.
pub const DEFAULT_LIMIT: i64 = 50;
/// Largest page size.
pub const MAX_LIMIT: i64 = 500;
/// Window in days when the query names none.
pub const DEFAULT_DAYS: i32 = 30;
/// Longest window in days.
pub const MAX_DAYS: i32 = 365;
/// Most sample run ids listed per domain.
pub const SAMPLE_RUN_CAP: usize = 5;

/// Query of the citation summary.
#[derive(Debug)]
pub struct SummaryQuery {
    pub limit: Option<i64>,
    /// Window in days (default 30, clamped to [1, 365]).
    pub days: Option<i32>,
    /// Restrict citations to runs from this provider.
    pub provider: Option<String>,
    /// Restrict citations to runs against this prompt name.
    pub prompt: Option<String>,
}

/// One cited domain.
#[derive(Debug)]
pub struct DomainEntry {
    pub domain: String,
    pub frequency: i64,
    pub source_type: Option<String>,
    /// At most `SAMPLE_RUN_CAP` run ids citing the domain.
    pub sample_prompt_run_ids: Vec<String>,
}

/// Citation total of one provider.
#[derive(Debug)]
pub struct ProviderBreakdownEntry {
    pub provider: String,
    pub frequency: i64,
}

/// `x` clamped into `[lo, hi]`.
pub open spec fn clamped(x: int, lo: int, hi: int) -> int {
    if x < lo {
        lo
    } else if x > hi {
        hi
    } else {
        x
    }
}

/// The page size: the requested one or 50, clamped into [1, 500].
pub fn summary_limit(q: &SummaryQuery) -> (l: i64)
    ensures
        l == clamped(
            match q.limit {
                Some(l) => l as int,
                None => DEFAULT_LIMIT as int,
            },
            1,
            MAX_LIMIT as int,
        ),
{
    let l = match q.limit {
        Some(l) => l,
        None => DEFAULT_LIMIT,
    };
    if l < 1 {
        1
    } else if l > MAX_LIMIT {
        MAX_LIMIT
    } else {
        l
    }
}

/// The window in days: the requested one or 30, clamped into [1, 365].
pub fn summary_days(q: &SummaryQuery) -> (d: i32)
    ensures
        d == clamped(
            match q.days {
                Some(d) => d as int,
                None => DEFAULT_DAYS as int,
            },
            1,
            MAX_DAYS as int,
        ),
{
    let d = match q.days {
        Some(d) => d,
        None => DEFAULT_DAYS,
    };
    if d < 1 {
        1
    } else if d > MAX_DAYS {
        MAX_DAYS
    } else {
        d
    }
}

/// Whether the query filters the citations (by provider, prompt or window);
/// without a filter the legacy unfiltered domain list is answered.
pub fn has_filter(q: &SummaryQuery) -> (r: bool)
    ensures
        r == (q.provider is Some || q.prompt is Some || q.days is Some),
{
    q.provider.is_some() || q.prompt.is_some() || q.days.is_some()
}

/// A domain of the legacy unfiltered summary, whose samples are looked up
/// afterwards.
pub fn legacy_domain_entry(domain: String, frequency: i64, source_type: Option<String>) -> (e: DomainEntry)
    ensures
        e.domain == domain,
        e.frequency == frequency,
        e.source_type == source_type,
        e.sample_prompt_run_ids@.len() == 0,
{
    DomainEntry { domain, frequency, source_type, sample_prompt_run_ids: Vec::new() }
}

/// The first `SAMPLE_RUN_CAP` of the run ids that the aggregate query
/// collected for a domain (none when it collected none).
pub fn capped_sample_ids(raw: Option<Vec<String>>) -> (ids: Vec<String>)
    ensures
        ids@ == (match raw {
            Some(v) => if v@.len() <= SAMPLE_RUN_CAP {
                v@
            } else {
                v@.take(SAMPLE_RUN_CAP as int)
            },
            None => Seq::empty(),
        }),
{
    match raw {
        None => Vec::new(),
        Some(v) => {
            let ghost vv = v@;
            let mut v = v;
            if v.len() > SAMPLE_RUN_CAP {
                v.truncate(SAMPLE_RUN_CAP);
                assert(v@ =~= vv.take(SAMPLE_RUN_CAP as int));
            }
            v
        },
    }
}

/// The sample run ids of domain `d` in `rows` (`(domain, run id)` pairs in
/// the lookup's order): the distinct run ids of its rows, first seen first,
/// at most `SAMPLE_RUN_CAP` of them.
pub open spec fn sample_bucket(rows: Seq<(String, String)>, d: Seq<char>) -> Seq<Seq<char>>
    decreases rows.len(),
{
    if rows.len() == 0 {
        Seq::empty()
    } else {
        let b = sample_bucket(rows.drop_last(), d);
        let r = rows.last();
        if r.0@ == d && b.len() < SAMPLE_RUN_CAP && !b.contains(r.1@) {
            b.push(r.1@)
        } else {
            b
        }
    }
}

/// The sample run ids of `domain` among `rows`.
fn bucket_for(rows: &Vec<(String, String)>, domain: &String) -> (ids: Vec<String>)
    ensures
        strings_view(ids@) == sample_bucket(rows@, domain@),
{
    let mut ids: Vec<String> = Vec::new();
    let mut n: usize = 0;
    while n < rows.len()
        invariant
            n <= rows@.len(),
            strings_view(ids@) == sample_bucket(rows@.take(n as int), domain@),
        decreases rows@.len() - n,
    {
        proof {
            assert(rows@.take(n + 1).drop_last() == rows@.take(n as int));
            assert(rows@.take(n + 1).last() == rows@[n as int]);
        }
        let r = &rows[n];
        if r.0 == *domain && ids.len() < SAMPLE_RUN_CAP {
            let mut k: usize = 0;
            while k < ids.len() && ids[k] != r.1
                invariant
                    k <= ids@.len(),
                    forall|a: int| 0 <= a < k ==> (#[trigger] ids@[a])@ != r.1@,
                decreases ids@.len() - k,
            {
                k = k + 1;
            }
            proof {
                let b = strings_view(ids@);
                if b.contains(r.1@) {
                    let a = choose|a: int| 0 <= a < b.len() && b[a] == r.1@;
                    assert(ids@[a]@ == r.1@);
                }
            }
            if k < ids.len() {
                assert(strings_view(ids@)[k as int] == r.1@);
                assert(strings_view(ids@).contains(r.1@));
            }
            if k == ids.len() {
                let ghost old_ids = ids@;
                ids.push(r.1.clone());
                assert(strings_view(ids@) =~= strings_view(old_ids).push(r.1@));
            }
        }
        n = n + 1;
    }
    assert(rows@.take(rows@.len() as int) == rows@);
    ids
}

/// Whether some domain lacks sample run ids, so that a lookup is worth making.
pub fn needs_sample_lookup(entries: &Vec<DomainEntry>) -> (r: bool)
    ensures
        r == exists|i: int| 0 <= i < entries@.len() && (#[trigger] entries@[i]).sample_prompt_run_ids@.len() == 0,
{
    let mut i: usize = 0;
    while i < entries.len()
        invariant
            i <= entries@.len(),
            forall|j: int| 0 <= j < i ==> (#[trigger] entries@[j]).sample_prompt_run_ids@.len() != 0,
        decreases entries@.len() - i,
    {
        if entries[i].sample_prompt_run_ids.len() == 0 {
            return true;
        }
        i = i + 1;
    }
    false
}

/// Entry `i` of `entries` lacks samples and is the first such entry of its
/// domain: the one that receives the domain's looked-up samples.
pub open spec fn takes_samples(entries: Seq<DomainEntry>, i: int) -> bool {
    &&& entries[i].sample_prompt_run_ids@.len() == 0
    &&& forall|j: int| 0 <= j < i ==> !((#[trigger] entries[j]).domain@ == entries[i].domain@
        && entries[j].sample_prompt_run_ids@.len() == 0)
}

/// Fills in the samples of the domains that lack them from the lookup rows
/// `(domain, run id)`: the first entry of each such domain receives the
/// domain's sample run ids; every other entry is unchanged.
pub fn enrich_sample_ids(entries: Vec<DomainEntry>, rows: &Vec<(String, String)>) -> (out: Vec<DomainEntry>)
    ensures
        out@.len() == entries@.len(),
        forall|i: int| #![trigger out@[i]] 0 <= i < out@.len() ==> {
            &&& out@[i].domain == entries@[i].domain
            &&& out@[i].frequency == entries@[i].frequency
            &&& out@[i].source_type == entries@[i].source_type
            &&& if takes_samples(entries@, i) {
                strings_view(out@[i].sample_prompt_run_ids@) == sample_bucket(rows@, entries@[i].domain@)
            } else {
                out@[i].sample_prompt_run_ids == entries@[i].sample_prompt_run_ids
            }
        },
{
    let ghost orig = entries@;
    let mut rest = entries;
    let mut out: Vec<DomainEntry> = Vec::new();
    let mut claimed: Vec<String> = Vec::new();
    while rest.len() > 0
        invariant
            out@.len() + rest@.len() == orig.len(),
            rest@ == orig.skip(out@.len() as int),
            forall|d: Seq<char>| strings_view(claimed@).contains(d) <==> exists|j: int|
                0 <= j < out@.len() && (#[trigger] orig[j]).domain@ == d && orig[j].sample_prompt_run_ids@.len() == 0,
            forall|i: int| #![trigger out@[i]] 0 <= i < out@.len() ==> {
                &&& out@[i].domain == orig[i].domain
                &&& out@[i].frequency == orig[i].frequency
                &&& out@[i].source_type == orig[i].source_type
                &&& if takes_samples(orig, i) {
                    strings_view(out@[i].sample_prompt_run_ids@) == sample_bucket(rows@, orig[i].domain@)
                } else {
                    out@[i].sample_prompt_run_ids == orig[i].sample_prompt_run_ids
                }
            },
        decreases rest@.len(),
    {
        let ghost i = out@.len() as int;
        let ghost before = rest@;
        let mut e = rest.remove(0);
        proof {
            assert(e == orig[i]);
            assert(rest@ =~= orig.skip(i + 1));
        }
        let ghost old_claimed = claimed@;
        if e.sample_prompt_run_ids.len() == 0 {
            let mut k: usize = 0;
            while k < claimed.len() && claimed[k] != e.domain
                invariant
                    k <= claimed@.len(),
                    forall|a: int| 0 <= a < k ==> (#[trigger] claimed@[a])@ != e.domain@,
                decreases claimed@.len() - k,
            {
                k = k + 1;
            }
            if k == claimed.len() {
                proof {
                    assert forall|j: int| 0 <= j < i implies !((#[trigger] orig[j]).domain@ == orig[i].domain@
                        && orig[j].sample_prompt_run_ids@.len() == 0) by {
                        if orig[j].domain@ == orig[i].domain@ && orig[j].sample_prompt_run_ids@.len() == 0 {
                            assert(strings_view(old_claimed).contains(e.domain@));
                            let a = choose|a: int| 0 <= a < old_claimed.len() && strings_view(old_claimed)[a] == e.domain@;
                            assert(old_claimed[a]@ == e.domain@);
                        }
                    }
                    assert(takes_samples(orig, i));
                }
                let ids = bucket_for(rows, &e.domain);
                claimed.push(e.domain.clone());
                e.sample_prompt_run_ids = ids;
            } else {
                proof {
                    assert(claimed@[k as int]@ == e.domain@);
                    assert(strings_view(old_claimed)[k as int] == e.domain@);
                    assert(strings_view(old_claimed).contains(e.domain@));
                    let j = choose|j: int| 0 <= j < i && (#[trigger] orig[j]).domain@ == e.domain@ && orig[j].sample_prompt_run_ids@.len() == 0;
                    assert(!takes_samples(orig, i));
                }
            }
        } else {
            assert(!takes_samples(orig, i));
        }
        out.push(e);
        proof {
            assert forall|d: Seq<char>| strings_view(claimed@).contains(d) <==> exists|j: int|
                0 <= j < out@.len() && (#[trigger] orig[j]).domain@ == d && orig[j].sample_prompt_run_ids@.len() == 0 by {
                if claimed@.len() > old_claimed.len() {
                    assert(strings_view(claimed@) =~= strings_view(old_claimed).push(orig[i].domain@));
                    if strings_view(claimed@).contains(d) && d != orig[i].domain@ {
                        let a = choose|a: int| 0 <= a < strings_view(claimed@).len() && strings_view(claimed@)[a] == d;
                        assert(strings_view(old_claimed)[a] == d);
                    }
                    if strings_view(old_claimed).contains(d) {
                        let a = choose|a: int| 0 <= a < strings_view(old_claimed).len() && strings_view(old_claimed)[a] == d;
                        assert(strings_view(claimed@)[a] == d);
                    }
                    if d == orig[i].domain@ {
                        assert(strings_view(claimed@)[old_claimed.len() as int] == d);
                    }
                } else {
                    assert(claimed@ == old_claimed);
                    if exists|j: int| 0 <= j < out@.len() && (#[trigger] orig[j]).domain@ == d && orig[j].sample_prompt_run_ids@.len() == 0 {
                        let j = choose|j: int| 0 <= j < out@.len() && (#[trigger] orig[j]).domain@ == d && orig[j].sample_prompt_run_ids@.len() == 0;
                        if j == i {
                            assert(strings_view(old_claimed).contains(d));
                        }
                    }
                }
            }
        }
    }
    out
}

} // verus!
