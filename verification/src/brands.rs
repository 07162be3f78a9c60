//! The brand list: the spellings a brand's mentions are matched by, and the
//! answer when no configuration is loaded.

use vstd::prelude::*;

use crate::errors::{api_error, ApiError};
use crate::order::{insert_sorted_unique, strictly_sorted};
use crate::text::{chars_of, string_of, strings_view, to_lowercase, unicode_lower, vecs_view};

verus! {

/// The lowercased spellings of a brand: its canonical name and variants.
pub open spec fn spellings(canonical: Seq<char>, variants: Seq<String>) -> Set<Seq<char>> {
    Set::new(|s: Seq<char>| s == unicode_lower(canonical) || exists|i: int| 0 <= i < variants.len() && s == unicode_lower(#[trigger] variants[i]@))
}

/// The spellings mentions are matched against: the lowercased canonical name
/// and variants, sorted and without repeats.
pub fn match_set(canonical: &str, variants: &Vec<String>) -> (m: Vec<String>)
    ensures
        strictly_sorted(strings_view(m@)),
        forall|s: Seq<char>| #[trigger] strings_view(m@).contains(s) <==> spellings(canonical@, variants@).contains(s),
{
    let mut set: Vec<Vec<char>> = Vec::new();
    let first = to_lowercase(canonical);
    insert_sorted_unique(&mut set, chars_of(first.as_str()));
    let mut i: usize = 0;
    while i < variants.len()
        invariant
            i <= variants@.len(),
            strictly_sorted(vecs_view(set@)),
            forall|s: Seq<char>| #[trigger] vecs_view(set@).contains(s) <==> (s == unicode_lower(canonical@)
                || exists|j: int| 0 <= j < i && s == unicode_lower(#[trigger] variants@[j]@)),
        decreases variants@.len() - i,
    {
        let l = to_lowercase(variants[i].as_str());
        let ghost before = vecs_view(set@);
        insert_sorted_unique(&mut set, chars_of(l.as_str()));
        proof {
            assert forall|s: Seq<char>| #[trigger] vecs_view(set@).contains(s) <==> (s == unicode_lower(canonical@)
                || exists|j: int| 0 <= j < i + 1 && s == unicode_lower(#[trigger] variants@[j]@)) by {
                if s == unicode_lower(variants@[i as int]@) {
                    assert(vecs_view(set@).contains(s));
                }
                if exists|j: int| 0 <= j < i + 1 && s == unicode_lower(#[trigger] variants@[j]@) {
                    let j = choose|j: int| 0 <= j < i + 1 && s == unicode_lower(#[trigger] variants@[j]@);
                    if j < i {
                        assert(before.contains(s));
                    }
                }
            }
        }
        i = i + 1;
    }
    let mut m: Vec<String> = Vec::new();
    let mut k: usize = 0;
    while k < set.len()
        invariant
            k <= set@.len(),
            m@.len() == k,
            forall|a: int| 0 <= a < k ==> (#[trigger] m@[a])@ == set@[a]@,
        decreases set@.len() - k,
    {
        m.push(string_of(&set[k]));
        k = k + 1;
    }
    proof {
        assert(strings_view(m@) =~= vecs_view(set@));
        assert forall|s: Seq<char>| #[trigger] strings_view(m@).contains(s) <==> spellings(canonical@, variants@).contains(s) by {
            assert(vecs_view(set@).contains(s) == strings_view(m@).contains(s));
        }
    }
    m
}

/// 503 when the API booted without a readable configuration.
pub fn config_unavailable() -> (e: ApiError)
    ensures
        e.status == 503,
        e.error@ == "config_unavailable"@,
        e.message@ == "API server booted without a readable `opengeo.yaml`; brand list cannot be resolved."@,
{
    api_error(
        503,
        "config_unavailable",
        "API server booted without a readable `opengeo.yaml`; brand list cannot be resolved.",
    )
}

/// The brands to list: the primary brand first, then each competitor, with
/// whether it is primary and its variants.
pub fn declared_brands(
    primary: String,
    primary_variants: Vec<String>,
    competitors: Vec<(String, Vec<String>)>,
) -> (d: Vec<(String, bool, Vec<String>)>)
    ensures
        d@.len() == competitors@.len() + 1,
        d@[0] == (primary, true, primary_variants),
        forall|i: int| 0 <= i < competitors@.len() ==> #[trigger] d@[i + 1] == (competitors@[i].0, false, competitors@[i].1),
{
    let ghost comps = competitors@;
    let mut d: Vec<(String, bool, Vec<String>)> = Vec::new();
    d.push((primary, true, primary_variants));
    let mut rest = competitors;
    let mut reversed: Vec<(String, Vec<String>)> = Vec::new();
    while rest.len() > 0
        invariant
            rest@.len() + reversed@.len() == comps.len(),
            rest@ == comps.take(rest@.len() as int),
            forall|k: int| 0 <= k < reversed@.len() ==> #[trigger] reversed@[k] == comps[comps.len() - 1 - k],
        decreases rest@.len(),
    {
        let ghost before = rest@;
        let c = rest.pop().unwrap();
        proof {
            assert(before.drop_last() == rest@);
            assert(rest@ == comps.take(rest@.len() as int));
        }
        reversed.push(c);
    }
    let ghost first = d@[0];
    while reversed.len() > 0
        invariant
            reversed@.len() + d@.len() == comps.len() + 1,
            d@.len() >= 1,
            d@[0] == first,
            forall|k: int| 0 <= k < reversed@.len() ==> #[trigger] reversed@[k] == comps[comps.len() - 1 - k],
            forall|i: int| 0 <= i < d@.len() - 1 ==> #[trigger] d@[i + 1] == (comps[i].0, false, comps[i].1),
        decreases reversed@.len(),
    {
        let (name, variants) = reversed.pop().unwrap();
        d.push((name, false, variants));
    }
    d
}

} // verus!
