//! `GET /v1/comparisons`: the deterministic brand-vs-competitors matrix.
//!
//! Query validation (`brands` holds 2..=6 entries, the optional filters are
//! non-empty when given, `window` is `1d|7d|30d`) and the assembly of the
//! matrix from the per-(prompt, provider, entity) rows the store returns:
//! rows ordered by `(prompt_name, provider)`, cells ordered
//! `[brand, ...competitors]`, best rank and saturating mention count per cell.

use vstd::prelude::*;

use crate::errors::{ApiError, api_error, api_error_msg, error_view};
use crate::order::{
    lemma_pair_lt_irreflexive, lemma_pair_lt_total, lemma_pair_lt_transitive, pair_chars_lt,
    pair_lt,
};
use crate::text::{
    chars_eq, chars_of, push_chars, split_pieces, str_eq, string_of, strings_view, trim, trim_chars,
};

verus! {

// ---------------------------------------------------------------------------
// Comma-separated lists
// ---------------------------------------------------------------------------

/// The trimmed pieces that are not empty, in order.
pub open spec fn kept_fields(pieces: Seq<Seq<char>>) -> Seq<Seq<char>>
    decreases pieces.len(),
{
    if pieces.len() == 0 {
        Seq::empty()
    } else {
        let prev = kept_fields(pieces.drop_last());
        let t = trim(pieces.last());
        if t.len() > 0 {
            prev.push(t)
        } else {
            prev
        }
    }
}

/// The entries of a comma-separated query value: split on `,`, each entry
/// trimmed, empty entries dropped.
pub open spec fn csv_fields(s: Seq<char>) -> Seq<Seq<char>> {
    kept_fields(split_pieces(s, ','))
}

/// Appends the trimmed `piece` to `out` when it is not empty.
fn keep_field(out: &mut Vec<String>, piece: &Vec<char>, Ghost(done): Ghost<Seq<Seq<char>>>)
    requires
        strings_view(old(out)@) == kept_fields(done),
    ensures
        strings_view(final(out)@) == kept_fields(done.push(piece@)),
{
    let t = trim_chars(piece);
    assert(done.push(piece@).drop_last() =~= done);
    if t.len() > 0 {
        let s = string_of(&t);
        out.push(s);
        assert(strings_view(out@) =~= strings_view(old(out)@).push(t@));
    }
}

/// Splits a comma-separated query value, trims entries, drops empties.
pub fn split_csv(raw: &str) -> (out: Vec<String>)
    ensures
        strings_view(out@) == csv_fields(raw@),
{
    let v = chars_of(raw);
    let mut out: Vec<String> = Vec::new();
    let mut cur: Vec<char> = Vec::new();
    let ghost mut done: Seq<Seq<char>> = Seq::empty();
    let mut i: usize = 0;
    assert(v@.subrange(0, 0) =~= Seq::<char>::empty());
    assert(strings_view(out@) =~= Seq::<Seq<char>>::empty());
    while i < v.len()
        invariant
            i <= v.len(),
            v@ == raw@,
            split_pieces(v@.subrange(0, i as int), ',') == done.push(cur@),
            strings_view(out@) == kept_fields(done),
        decreases v.len() - i,
    {
        let c = v[i];
        let ghost pre = v@.subrange(0, i as int);
        assert(v@.subrange(0, i + 1).drop_last() =~= pre);
        assert(v@.subrange(0, i + 1).last() == c);
        if c == ',' {
            keep_field(&mut out, &cur, Ghost(done));
            proof {
                done = done.push(cur@);
            }
            cur = Vec::new();
            assert(split_pieces(v@.subrange(0, i + 1), ',') =~= done.push(cur@));
        } else {
            cur.push(c);
            assert(split_pieces(v@.subrange(0, i + 1), ',') =~= done.push(cur@));
        }
        i = i + 1;
    }
    keep_field(&mut out, &cur, Ghost(done));
    assert(v@.subrange(0, v.len() as int) =~= v@);
    out
}

// ---------------------------------------------------------------------------
// Query validation
// ---------------------------------------------------------------------------

/// Query parameters of `GET /v1/comparisons`.
#[derive(Debug)]
pub struct ComparisonsQuery {
    /// Comma-separated list, 2..=6 entries. First entry is the subject brand.
    pub brands: String,
    /// Optional comma-separated prompt names.
    pub prompts: Option<String>,
    /// Optional comma-separated provider names.
    pub providers: Option<String>,
    /// `1d` | `7d` | `30d`. Default `7d`.
    pub window: Option<String>,
}

/// The wire-level comparison window (`7d | 30d | all`).
#[derive(Debug, Clone, Copy, PartialEq, Eq, Structural)]
pub enum Window {
    SevenDays,
    ThirtyDays,
    All,
}

/// The window a `window` value selects, in days and on the wire; `1d` is
/// reported on the wire as the seven-day window.
pub open spec fn window_choice(w: Seq<char>) -> Option<(i32, Window)> {
    if w == "1d"@ {
        Some((1i32, Window::SevenDays))
    } else if w == "7d"@ {
        Some((7i32, Window::SevenDays))
    } else if w == "30d"@ {
        Some((30i32, Window::ThirtyDays))
    } else {
        None
    }
}

/// The message of the `invalid_window` error for the value `w`.
pub open spec fn invalid_window_message(w: Seq<char>) -> Seq<char> {
    "`window` must be one of 1d|7d|30d (got `"@ + w + "`)"@
}

/// The answer to a `window` value (`7d` when absent).
pub open spec fn window_result(raw: Option<Seq<char>>) -> Result<(i32, Window), (u16, Seq<char>, Seq<char>)> {
    let w = match raw {
        Some(w) => w,
        None => "7d"@,
    };
    match window_choice(w) {
        Some(c) => Ok(c),
        None => Err((400u16, "invalid_window"@, invalid_window_message(w))),
    }
}

pub open spec fn opt_str_view(v: Option<&str>) -> Option<Seq<char>> {
    match v {
        Some(s) => Some(s@),
        None => None,
    }
}

/// Maps `1d|7d|30d` to days and to the wire window.
pub fn parse_window(raw: Option<&str>) -> (res: Result<(i32, Window), ApiError>)
    ensures
        match window_result(opt_str_view(raw)) {
            Ok(c) => res == Ok::<(i32, Window), ApiError>(c),
            Err(e) => res matches Err(err) && error_view(err) == e,
        },
{
    let w: &str = match raw {
        Some(w) => w,
        None => "7d",
    };
    proof {
        reveal_strlit("1d");
        reveal_strlit("7d");
        reveal_strlit("30d");
    }
    if str_eq(w, "1d") {
        Ok((1, Window::SevenDays))
    } else if str_eq(w, "7d") {
        Ok((7, Window::SevenDays))
    } else if str_eq(w, "30d") {
        Ok((30, Window::ThirtyDays))
    } else {
        let mut msg: String = "`window` must be one of 1d|7d|30d (got `".to_owned();
        let wc = chars_of(w);
        push_chars(&mut msg, &wc);
        let tail = chars_of("`)");
        push_chars(&mut msg, &tail);
        Err(api_error_msg(400, "invalid_window", msg))
    }
}


/// A validated comparison request.
#[derive(Debug)]
pub struct ComparisonPlan {
    /// The subject brand (first entry of `brands`).
    pub brand: String,
    /// The competitors, in caller order.
    pub competitors: Vec<String>,
    /// Cell order: `[brand, ...competitors]`.
    pub subjects: Vec<String>,
    pub prompt_filter: Option<Vec<String>>,
    pub provider_filter: Option<Vec<String>>,
    pub window_days: i32,
    pub window: Window,
}

pub open spec fn opt_string_view(v: Option<String>) -> Option<Seq<char>> {
    match v {
        Some(s) => Some(s@),
        None => None,
    }
}

pub open spec fn opt_fields(v: Option<Seq<char>>) -> Option<Seq<Seq<char>>> {
    match v {
        Some(s) => Some(csv_fields(s)),
        None => None,
    }
}

pub open spec fn opt_strings_view(v: Option<Vec<String>>) -> Option<Seq<Seq<char>>> {
    match v {
        Some(l) => Some(strings_view(l@)),
        None => None,
    }
}

pub open spec fn brands_message() -> Seq<char> {
    "`brands` must be a comma-separated list of 2..=6 non-empty entries"@
}

pub open spec fn prompts_message() -> Seq<char> {
    "`prompts` was provided but contained no non-empty entries"@
}

pub open spec fn providers_message() -> Seq<char> {
    "`providers` was provided but contained no non-empty entries"@
}

/// The validation of a comparison query, checked in this order: the brand
/// count, the prompt filter, the provider filter, the window.
pub open spec fn comparison_plan_result(
    brands: Seq<char>,
    prompts: Option<Seq<char>>,
    providers: Option<Seq<char>>,
    window: Option<Seq<char>>,
) -> Result<(Seq<Seq<char>>, Option<Seq<Seq<char>>>, Option<Seq<Seq<char>>>, i32, Window), (u16, Seq<char>, Seq<char>)> {
    let b = csv_fields(brands);
    let pf = opt_fields(prompts);
    let vf = opt_fields(providers);
    if b.len() < 2 || b.len() > 6 {
        Err((400u16, "invalid_brands"@, brands_message()))
    } else if pf matches Some(l) && l.len() == 0 {
        Err((400u16, "invalid_prompts"@, prompts_message()))
    } else if vf matches Some(l) && l.len() == 0 {
        Err((400u16, "invalid_providers"@, providers_message()))
    } else {
        match window_result(window) {
            Err(e) => Err(e),
            Ok((days, w)) => Ok((b, pf, vf, days, w)),
        }
    }
}

fn split_opt(raw: &Option<String>) -> (r: Option<Vec<String>>)
    ensures
        opt_strings_view(r) == opt_fields(opt_string_view(*raw)),
{
    match raw {
        Some(s) => Some(split_csv(s.as_str())),
        None => None,
    }
}

/// Validates a comparison query.
pub fn plan_comparison(q: &ComparisonsQuery) -> (res: Result<ComparisonPlan, ApiError>)
    ensures
        match comparison_plan_result(
            q.brands@,
            opt_string_view(q.prompts),
            opt_string_view(q.providers),
            opt_string_view(q.window),
        ) {
            Ok((b, pf, vf, days, w)) => res matches Ok(p) && {
                &&& strings_view(p.subjects@) == b
                &&& p.brand@ == b[0]
                &&& strings_view(p.competitors@) == b.skip(1)
                &&& opt_strings_view(p.prompt_filter) == pf
                &&& opt_strings_view(p.provider_filter) == vf
                &&& p.window_days == days
                &&& p.window == w
            },
            Err(e) => res matches Err(err) && error_view(err) == e,
        },
{
    let brands = split_csv(q.brands.as_str());
    if brands.len() < 2 || brands.len() > 6 {
        return Err(
            api_error(
                400,
                "invalid_brands",
                "`brands` must be a comma-separated list of 2..=6 non-empty entries",
            ),
        );
    }
    let prompt_filter = split_opt(&q.prompts);
    if let Some(v) = &prompt_filter {
        if v.len() == 0 {
            return Err(
                api_error(
                    400,
                    "invalid_prompts",
                    "`prompts` was provided but contained no non-empty entries",
                ),
            );
        }
    }
    let provider_filter = split_opt(&q.providers);
    if let Some(v) = &provider_filter {
        if v.len() == 0 {
            return Err(
                api_error(
                    400,
                    "invalid_providers",
                    "`providers` was provided but contained no non-empty entries",
                ),
            );
        }
    }
    let window_raw: Option<&str> = match &q.window {
        Some(w) => Some(w.as_str()),
        None => None,
    };
    let (window_days, window) = match parse_window(window_raw) {
        Ok(c) => c,
        Err(e) => return Err(e),
    };
    let brand = brands[0].clone();
    let mut competitors: Vec<String> = Vec::new();
    let mut i: usize = 1;
    while i < brands.len()
        invariant
            1 <= i <= brands.len(),
            competitors.len() == i - 1,
            strings_view(competitors@) == strings_view(brands@).subrange(1, i as int),
        decreases brands.len() - i,
    {
        let c = brands[i].clone();
        assert(c@ == brands@[i as int]@);
        let ghost before = competitors@;
        competitors.push(c);
        assert(strings_view(competitors@).len() == i);
        assert(strings_view(competitors@)[i - 1] == c@);
        assert(strings_view(competitors@)[i - 1] == strings_view(brands@)[i as int]);
        assert(strings_view(competitors@) =~= strings_view(before).push(c@));
        assert(strings_view(competitors@) =~= strings_view(brands@).subrange(1, i + 1));
        i = i + 1;
    }
    assert(strings_view(brands@).subrange(1, brands.len() as int) =~= strings_view(brands@).skip(1));
    Ok(
        ComparisonPlan {
            brand,
            competitors,
            subjects: brands,
            prompt_filter,
            provider_filter,
            window_days,
            window,
        },
    )
}


// ---------------------------------------------------------------------------
// Matrix assembly
// ---------------------------------------------------------------------------

/// One row from the store: a (prompt, provider, entity) triple within the
/// window with its best rank and mention count.
#[derive(Debug)]
pub struct RawComparisonRow {
    pub prompt_id: String,
    pub prompt_name: String,
    pub provider: String,
    pub entity: String,
    pub ranking: Option<u32>,
    pub mention_count: u32,
}

/// One subject's standing in one (prompt, provider) row.
#[derive(Debug)]
pub struct CompareBrandsCell {
    pub subject: String,
    /// Best (lowest) rank, `None` when the subject was not ranked.
    pub ranking: Option<u32>,
    pub mention_count: u32,
}

/// One (prompt, provider) row of the matrix.
#[derive(Debug)]
pub struct CompareBrandsRow {
    pub prompt_id: String,
    pub prompt_name: String,
    pub provider: String,
    /// `[brand, ...competitors]`.
    pub cells: Vec<CompareBrandsCell>,
}

/// The comparison matrix.
#[derive(Debug)]
pub struct CompareBrandsOutput {
    pub window: Window,
    pub brand: String,
    pub competitors: Vec<String>,
    pub rows: Vec<CompareBrandsRow>,
    pub trace_id: String,
}

/// The `(prompt_name, provider)` key of a store row.
pub open spec fn row_key(r: RawComparisonRow) -> (Seq<char>, Seq<char>) {
    (r.prompt_name@, r.provider@)
}

/// The `(prompt_name, provider)` key of a matrix row.
pub open spec fn out_key(r: CompareBrandsRow) -> (Seq<char>, Seq<char>) {
    (r.prompt_name@, r.provider@)
}

/// Whether some row carries `key`.
pub open spec fn has_key(rows: Seq<RawComparisonRow>, key: (Seq<char>, Seq<char>)) -> bool
    decreases rows.len(),
{
    rows.len() > 0 && (row_key(rows.last()) == key || has_key(rows.drop_last(), key))
}

/// The prompt id of the last row carrying `key`.
pub open spec fn latest_prompt_id(rows: Seq<RawComparisonRow>, key: (Seq<char>, Seq<char>)) -> Seq<char>
    decreases rows.len(),
{
    if rows.len() == 0 {
        Seq::empty()
    } else if row_key(rows.last()) == key {
        rows.last().prompt_id@
    } else {
        latest_prompt_id(rows.drop_last(), key)
    }
}

/// The better (lower) of two optional ranks.
pub open spec fn merge_rank(a: Option<u32>, b: Option<u32>) -> Option<u32> {
    match (a, b) {
        (None, b) => b,
        (a, None) => a,
        (Some(x), Some(y)) => Some(if x <= y { x } else { y }),
    }
}

/// The best rank of `subject` over the rows carrying `key`.
pub open spec fn best_rank(rows: Seq<RawComparisonRow>, key: (Seq<char>, Seq<char>), subject: Seq<char>) -> Option<u32>
    decreases rows.len(),
{
    if rows.len() == 0 {
        None
    } else {
        let prev = best_rank(rows.drop_last(), key, subject);
        let r = rows.last();
        if row_key(r) == key && r.entity@ == subject {
            merge_rank(prev, r.ranking)
        } else {
            prev
        }
    }
}

/// Whether store row `r` is about `subject` in the matrix row `key`.
pub open spec fn row_counts(r: RawComparisonRow, key: (Seq<char>, Seq<char>), subject: Seq<char>) -> bool {
    row_key(r) == key && r.entity@ == subject
}

/// Law: the best rank of a subject in a matrix row is the lowest rank among
/// the store rows of that key and subject: it is one of their ranks and none
/// of them has a lower one; it is absent exactly when none of them is ranked.
pub proof fn lemma_best_rank_is_lowest(rows: Seq<RawComparisonRow>, key: (Seq<char>, Seq<char>), subject: Seq<char>)
    ensures
        best_rank(rows, key, subject) matches Some(b) ==> {
            &&& exists|m: int| 0 <= m < rows.len() && row_counts(#[trigger] rows[m], key, subject) && rows[m].ranking == Some(b)
            &&& forall|m: int| 0 <= m < rows.len() && row_counts(#[trigger] rows[m], key, subject) && rows[m].ranking is Some
                ==> b <= rows[m].ranking->0
        },
        best_rank(rows, key, subject) is None ==> forall|m: int| 0 <= m < rows.len() && row_counts(#[trigger] rows[m], key, subject)
            ==> rows[m].ranking is None,
    decreases rows.len(),
{
    if rows.len() > 0 {
        let d = rows.drop_last();
        lemma_best_rank_is_lowest(d, key, subject);
        let r = rows.last();
        let n = rows.len() - 1;
        assert(rows[n] == r);
        assert forall|m: int| 0 <= m < d.len() implies #[trigger] rows[m] == d[m] by {}
        let prev = best_rank(d, key, subject);
        if row_counts(r, key, subject) {
            match (prev, r.ranking) {
                (Some(x), Some(y)) => {
                    let mx = choose|m: int| 0 <= m < d.len() && row_counts(#[trigger] d[m], key, subject) && d[m].ranking == Some(x);
                    assert(rows[mx] == d[mx]);
                    assert forall|m: int| 0 <= m < rows.len() && row_counts(#[trigger] rows[m], key, subject) && rows[m].ranking is Some
                        implies best_rank(rows, key, subject)->0 <= rows[m].ranking->0 by {
                        if m < n {
                            assert(rows[m] == d[m]);
                        }
                    }
                },
                (Some(x), None) => {
                    let mx = choose|m: int| 0 <= m < d.len() && row_counts(#[trigger] d[m], key, subject) && d[m].ranking == Some(x);
                    assert(rows[mx] == d[mx]);
                    assert forall|m: int| 0 <= m < rows.len() && row_counts(#[trigger] rows[m], key, subject) && rows[m].ranking is Some
                        implies x <= rows[m].ranking->0 by {
                        if m < n {
                            assert(rows[m] == d[m]);
                        }
                    }
                },
                (None, Some(y)) => {
                    assert forall|m: int| 0 <= m < rows.len() && row_counts(#[trigger] rows[m], key, subject) && rows[m].ranking is Some
                        implies y <= rows[m].ranking->0 by {
                        if m < n {
                            assert(rows[m] == d[m]);
                        }
                    }
                },
                (None, None) => {
                    assert forall|m: int| 0 <= m < rows.len() && row_counts(#[trigger] rows[m], key, subject)
                        implies rows[m].ranking is None by {
                        if m < n {
                            assert(rows[m] == d[m]);
                        }
                    }
                },
            }
        } else {
            match prev {
                Some(x) => {
                    let mx = choose|m: int| 0 <= m < d.len() && row_counts(#[trigger] d[m], key, subject) && d[m].ranking == Some(x);
                    assert(rows[mx] == d[mx]);
                    assert forall|m: int| 0 <= m < rows.len() && row_counts(#[trigger] rows[m], key, subject) && rows[m].ranking is Some
                        implies x <= rows[m].ranking->0 by {
                        if m < n {
                            assert(rows[m] == d[m]);
                        }
                    }
                },
                None => {
                    assert forall|m: int| 0 <= m < rows.len() && row_counts(#[trigger] rows[m], key, subject)
                        implies rows[m].ranking is None by {
                        if m < n {
                            assert(rows[m] == d[m]);
                        }
                    }
                },
            }
        }
    }
}

/// The total mention count of `subject` over the rows carrying `key`.
pub open spec fn mention_total(rows: Seq<RawComparisonRow>, key: (Seq<char>, Seq<char>), subject: Seq<char>) -> nat
    decreases rows.len(),
{
    if rows.len() == 0 {
        0
    } else {
        let prev = mention_total(rows.drop_last(), key, subject);
        let r = rows.last();
        if row_key(r) == key && r.entity@ == subject {
            prev + (r.mention_count as nat)
        } else {
            prev
        }
    }
}

/// Law: mention counts add up: the total over two batches of store rows is
/// the sum of their totals, and a single row contributes its own count when
/// it is about the subject in that matrix row, and nothing otherwise.
pub proof fn lemma_mention_total_adds(
    a: Seq<RawComparisonRow>,
    b: Seq<RawComparisonRow>,
    key: (Seq<char>, Seq<char>),
    subject: Seq<char>,
)
    ensures
        mention_total(a + b, key, subject) == mention_total(a, key, subject) + mention_total(b, key, subject),
        b.len() == 1 ==> mention_total(b, key, subject) == if row_counts(b[0], key, subject) {
            b[0].mention_count as nat
        } else {
            0nat
        },
    decreases b.len(),
{
    if b.len() == 0 {
        assert(a + b =~= a);
    } else {
        assert((a + b).drop_last() =~= a + b.drop_last());
        assert((a + b).last() == b.last());
        lemma_mention_total_adds(a, b.drop_last(), key, subject);
        if b.len() == 1 {
            assert(b.drop_last() =~= Seq::<RawComparisonRow>::empty());
            assert(b.last() == b[0]);
        }
    }
}

/// `n`, saturated at `u32::MAX`.
pub open spec fn capped(n: nat) -> u32 {
    if n <= u32::MAX {
        n as u32
    } else {
        u32::MAX
    }
}

/// Every store row's key has a matrix row.
pub open spec fn covers_keys(rows: Seq<RawComparisonRow>, out: Seq<CompareBrandsRow>) -> bool {
    forall|m: int|
        #![trigger rows[m]]
        0 <= m < rows.len() ==> exists|i: int| #![trigger out[i]] 0 <= i < out.len() && out_key(out[i]) == row_key(rows[m])
}

/// A matrix row is the aggregate of the store rows carrying its key.
pub open spec fn matrix_row_ok(o: CompareBrandsRow, rows: Seq<RawComparisonRow>, subjects: Seq<Seq<char>>) -> bool {
    &&& o.prompt_id@ == latest_prompt_id(rows, out_key(o))
    &&& o.cells@.len() == subjects.len()
    &&& forall|j: int|
        0 <= j < subjects.len() ==> {
            &&& (#[trigger] o.cells@[j]).subject@ == subjects[j]
            &&& o.cells@[j].ranking == best_rank(rows, out_key(o), subjects[j])
            &&& o.cells@[j].mention_count == capped(mention_total(rows, out_key(o), subjects[j]))
        }
}

#[derive(Clone, Copy)]
struct Slot {
    rank: Option<u32>,
    count: u32,
}

struct Group {
    name: Vec<char>,
    provider: Vec<char>,
    prompt_id: String,
    slots: Vec<Slot>,
}

spec fn group_key(g: Group) -> (Seq<char>, Seq<char>) {
    (g.name@, g.provider@)
}

spec fn group_ok(g: Group, rows: Seq<RawComparisonRow>, subjects: Seq<Seq<char>>) -> bool {
    &&& g.prompt_id@ == latest_prompt_id(rows, group_key(g))
    &&& g.slots@.len() == subjects.len()
    &&& forall|j: int|
        0 <= j < subjects.len() ==> {
            &&& (#[trigger] g.slots@[j]).rank == best_rank(rows, group_key(g), subjects[j])
            &&& g.slots@[j].count == capped(mention_total(rows, group_key(g), subjects[j]))
        }
}

spec fn groups_sorted(gs: Seq<Group>) -> bool {
    forall|i: int, j: int| 0 <= i < j < gs.len() ==> pair_lt(#[trigger] group_key(gs[i]), #[trigger] group_key(gs[j]))
}

spec fn chars_view(v: Seq<Vec<char>>) -> Seq<Seq<char>> {
    v.map_values(|c: Vec<char>| c@)
}

/// A row whose key differs from a group's leaves the group's aggregates alone.
proof fn lemma_other_row(g: Group, rows: Seq<RawComparisonRow>, subjects: Seq<Seq<char>>)
    requires
        rows.len() > 0,
        row_key(rows.last()) != group_key(g),
        group_ok(g, rows.drop_last(), subjects),
    ensures
        group_ok(g, rows, subjects),
{
    assert forall|j: int| 0 <= j < subjects.len() implies {
        &&& (#[trigger] g.slots@[j]).rank == best_rank(rows, group_key(g), subjects[j])
        &&& g.slots@[j].count == capped(mention_total(rows, group_key(g), subjects[j]))
    } by {
        assert(best_rank(rows, group_key(g), subjects[j]) == best_rank(rows.drop_last(), group_key(g), subjects[j]));
    }
}

/// A key no row carries has empty aggregates.
proof fn lemma_absent_key(rows: Seq<RawComparisonRow>, key: (Seq<char>, Seq<char>), subject: Seq<char>)
    requires
        !has_key(rows, key),
    ensures
        latest_prompt_id(rows, key) == Seq::<char>::empty(),
        best_rank(rows, key, subject) == None::<u32>,
        mention_total(rows, key, subject) == 0,
    decreases rows.len(),
{
    if rows.len() > 0 {
        lemma_absent_key(rows.drop_last(), key, subject);
    }
}

/// Folds one store row into the group carrying its key.
fn apply_row(
    g: Group,
    r: &RawComparisonRow,
    subjects: &Vec<Vec<char>>,
    entity: &Vec<char>,
    Ghost(rows): Ghost<Seq<RawComparisonRow>>,
) -> (out: Group)
    requires
        rows.len() > 0,
        rows.last() == *r,
        entity@ == r.entity@,
        row_key(*r) == group_key(g),
        group_ok(g, rows.drop_last(), chars_view(subjects@)),
        subjects.len() == chars_view(subjects@).len(),
    ensures
        group_key(out) == group_key(g),
        group_ok(out, rows, chars_view(subjects@)),
{
    let ghost subj = chars_view(subjects@);
    let Group { name, provider, prompt_id: _, slots } = g;
    let ghost key = (name@, provider@);
    let mut new_slots: Vec<Slot> = Vec::new();
    let mut j: usize = 0;
    while j < subjects.len()
        invariant
            j <= subjects.len(),
            subjects.len() == subj.len(),
            subj == chars_view(subjects@),
            slots@.len() == subj.len(),
            new_slots@.len() == j,
            rows.len() > 0,
            rows.last() == *r,
            entity@ == r.entity@,
            row_key(*r) == key,
            forall|k: int|
                0 <= k < subj.len() ==> {
                    &&& (#[trigger] slots@[k]).rank == best_rank(rows.drop_last(), key, subj[k])
                    &&& slots@[k].count == capped(mention_total(rows.drop_last(), key, subj[k]))
                },
            forall|k: int|
                0 <= k < j ==> {
                    &&& (#[trigger] new_slots@[k]).rank == best_rank(rows, key, subj[k])
                    &&& new_slots@[k].count == capped(mention_total(rows, key, subj[k]))
                },
        decreases subjects.len() - j,
    {
        let old_slot = slots[j];
        assert(subj[j as int] == subjects@[j as int]@);
        let slot = if chars_eq(&subjects[j], entity) {
            let rank = match (old_slot.rank, r.ranking) {
                (None, b) => b,
                (a, None) => a,
                (Some(x), Some(y)) => Some(if x <= y { x } else { y }),
            };
            let count = old_slot.count.saturating_add(r.mention_count);
            Slot { rank, count }
        } else {
            old_slot
        };
        new_slots.push(slot);
        j = j + 1;
    }
    Group { name, provider, prompt_id: r.prompt_id.clone(), slots: new_slots }
}

/// Assembles the comparison matrix from the store rows: one row per distinct
/// `(prompt_name, provider)`, in ascending order, each with one cell per
/// subject in `subjects` order.
pub fn assemble_rows(subjects: &Vec<String>, rows: &Vec<RawComparisonRow>) -> (out: Vec<CompareBrandsRow>)
    ensures
        forall|i: int, j: int|
            0 <= i < j < out@.len() ==> pair_lt(#[trigger] out_key(out@[i]), #[trigger] out_key(out@[j])),
        forall|i: int| 0 <= i < out@.len() ==> has_key(rows@, #[trigger] out_key(out@[i])),
        covers_keys(rows@, out@),
        forall|i: int| 0 <= i < out@.len() ==> matrix_row_ok(#[trigger] out@[i], rows@, strings_view(subjects@)),
{
    // Subjects as character vectors.
    let mut subj: Vec<Vec<char>> = Vec::new();
    let mut s: usize = 0;
    while s < subjects.len()
        invariant
            s <= subjects.len(),
            subj.len() == s,
            forall|k: int| 0 <= k < s ==> (#[trigger] subj@[k])@ == subjects@[k]@,
        decreases subjects.len() - s,
    {
        subj.push(chars_of(subjects[s].as_str()));
        s = s + 1;
    }
    let ghost sv = chars_view(subj@);
    assert(sv =~= strings_view(subjects@));

    let mut groups: Vec<Group> = Vec::new();
    let ghost mut pos: Seq<int> = Seq::empty();
    let mut n: usize = 0;
    while n < rows.len()
        invariant
            n <= rows.len(),
            sv == chars_view(subj@),
            sv == strings_view(subjects@),
            subj.len() == sv.len(),
            groups_sorted(groups@),
            forall|i: int| 0 <= i < groups@.len() ==> group_ok(#[trigger] groups@[i], rows@.subrange(0, n as int), sv),
            forall|i: int| 0 <= i < groups@.len() ==> has_key(rows@.subrange(0, n as int), #[trigger] group_key(groups@[i])),
            pos.len() == n,
            forall|m: int| 0 <= m < n ==> 0 <= #[trigger] pos[m] < groups@.len() && group_key(groups@[pos[m]]) == row_key(rows@[m]),
        decreases rows.len() - n,
    {
        let r = &rows[n];
        let ghost pre = rows@.subrange(0, n as int);
        let ghost cur = rows@.subrange(0, n + 1);
        assert(cur.drop_last() =~= pre);
        assert(cur.last() == *r);
        let name = chars_of(r.prompt_name.as_str());
        let prov = chars_of(r.provider.as_str());
        let entity = chars_of(r.entity.as_str());
        let ghost key = (name@, prov@);
        assert(row_key(*r) == key);

        let mut p: usize = 0;
        while p < groups.len() && pair_chars_lt(&groups[p].name, &groups[p].provider, &name, &prov)
            invariant
                p <= groups.len(),
                key == (name@, prov@),
                forall|i: int| 0 <= i < p ==> pair_lt(#[trigger] group_key(groups@[i]), key),
            decreases groups.len() - p,
        {
            p = p + 1;
        }
        let found = p < groups.len() && chars_eq(&groups[p].name, &name) && chars_eq(&groups[p].provider, &prov);
        let ghost old_groups = groups@;
        if found {
            let g = groups.remove(p);
            assert(group_key(g) == key);
            let g2 = apply_row(g, r, &subj, &entity, Ghost(cur));
            groups.insert(p, g2);
            assert(groups@ =~= old_groups.update(p as int, g2));
            proof {
                assert forall|i: int| 0 <= i < groups@.len() implies group_ok(#[trigger] groups@[i], cur, sv) by {
                    if i != p {
                        lemma_other_row(old_groups[i], cur, sv);
                    }
                }
                assert forall|i: int| 0 <= i < groups@.len() implies has_key(cur, #[trigger] group_key(groups@[i])) by {
                    assert(has_key(pre, group_key(old_groups[i])));
                }
                pos = pos.push(p as int);
                assert forall|m: int| 0 <= m < n + 1 implies 0 <= #[trigger] pos[m] < groups@.len() && group_key(groups@[pos[m]]) == row_key(rows@[m]) by {
                }
            }
        } else {
            proof {
                if p < old_groups.len() {
                    lemma_pair_lt_total(group_key(old_groups[p as int]), key);
                }
                // No existing group carries the key, so no earlier row does.
                if has_key(pre, key) {
                    assert forall|m: int| 0 <= m < n implies row_key(rows@[m]) != key by {
                        let i = pos[m];
                        if i < p {
                            lemma_pair_lt_irreflexive(key);
                        } else if i > p {
                            lemma_pair_lt_transitive(key, group_key(old_groups[p as int]), group_key(old_groups[i]));
                            lemma_pair_lt_irreflexive(key);
                        }
                    }
                    lemma_has_key_witness(pre, key);
                }
            }
            let mut fresh_slots: Vec<Slot> = Vec::new();
            let mut j: usize = 0;
            while j < subj.len()
                invariant
                    j <= subj.len(),
                    fresh_slots@.len() == j,
                    forall|k: int| 0 <= k < j ==> (#[trigger] fresh_slots@[k]).rank == None::<u32> && fresh_slots@[k].count == 0,
                decreases subj.len() - j,
            {
                fresh_slots.push(Slot { rank: None, count: 0 });
                j = j + 1;
            }
            let g = Group { name, provider: prov, prompt_id: String::new(), slots: fresh_slots };
            proof {
                assert forall|k: int| 0 <= k < sv.len() implies {
                    &&& (#[trigger] g.slots@[k]).rank == best_rank(pre, group_key(g), sv[k])
                    &&& g.slots@[k].count == capped(mention_total(pre, group_key(g), sv[k]))
                } by {
                    lemma_absent_key(pre, key, sv[k]);
                }
                lemma_absent_key(pre, key, Seq::empty());
            }
            let g2 = apply_row(g, r, &subj, &entity, Ghost(cur));
            groups.insert(p, g2);
            proof {
                old_groups.insert_ensures(p as int, g2);
                assert forall|i: int, j: int| 0 <= i < j < groups@.len() implies pair_lt(#[trigger] group_key(groups@[i]), #[trigger] group_key(groups@[j])) by {
                    if j == p {
                    } else if i == p {
                        if j > p + 1 {
                            lemma_pair_lt_transitive(key, group_key(old_groups[p as int]), group_key(old_groups[j - 1]));
                        }
                    } else if i < p && j > p {
                        assert(groups@[j] == old_groups[j - 1]);
                    } else if i > p {
                        assert(groups@[i] == old_groups[i - 1]);
                        assert(groups@[j] == old_groups[j - 1]);
                    }
                }
                assert forall|i: int| 0 <= i < groups@.len() implies group_ok(#[trigger] groups@[i], cur, sv) by {
                    if i < p {
                        lemma_other_row(old_groups[i], cur, sv);
                    } else if i > p {
                        assert(groups@[i] == old_groups[i - 1]);
                        lemma_other_row(old_groups[i - 1], cur, sv);
                    }
                }
                assert forall|i: int| 0 <= i < groups@.len() implies has_key(cur, #[trigger] group_key(groups@[i])) by {
                    if i < p {
                        assert(has_key(pre, group_key(old_groups[i])));
                    } else if i > p {
                        assert(groups@[i] == old_groups[i - 1]);
                        assert(has_key(pre, group_key(old_groups[i - 1])));
                    }
                }
                let old_pos = pos;
                pos = old_pos.map_values(|x: int| if x >= p { x + 1 } else { x }).push(p as int);
                assert forall|m: int| 0 <= m < n + 1 implies 0 <= #[trigger] pos[m] < groups@.len() && group_key(groups@[pos[m]]) == row_key(rows@[m]) by {
                    if m < n {
                        let x = old_pos[m];
                        if x >= p {
                            assert(groups@[x + 1] == old_groups[x]);
                        }
                    }
                }
            }
        }
        n = n + 1;
    }
    assert(rows@.subrange(0, rows.len() as int) =~= rows@);

    // Emit the rows in order.
    let mut out: Vec<CompareBrandsRow> = Vec::new();
    let ghost final_groups = groups@;
    let mut g_idx: usize = 0;
    while g_idx < groups.len()
        invariant
            groups@ == final_groups,
            g_idx <= groups.len(),
            out@.len() == g_idx,
            sv == strings_view(subjects@),
            subjects.len() == sv.len(),
            forall|i: int| 0 <= i < g_idx ==> out_key(#[trigger] out@[i]) == group_key(final_groups[i]),
            forall|i: int| 0 <= i < g_idx ==> matrix_row_ok(#[trigger] out@[i], rows@, sv),
            forall|i: int| 0 <= i < final_groups.len() ==> group_ok(#[trigger] final_groups[i], rows@, sv),
        decreases groups.len() - g_idx,
    {
        let g = &groups[g_idx];
        let ghost gk = group_key(*g);
        assert(group_ok(final_groups[g_idx as int], rows@, sv));
        let mut cells: Vec<CompareBrandsCell> = Vec::new();
        let mut j: usize = 0;
        while j < subjects.len()
            invariant
                j <= subjects.len(),
                subjects.len() == sv.len(),
                sv == strings_view(subjects@),
                g.slots@.len() == sv.len(),
                cells@.len() == j,
                group_ok(*g, rows@, sv),
                gk == group_key(*g),
                forall|k: int|
                    0 <= k < j ==> {
                        &&& (#[trigger] cells@[k]).subject@ == sv[k]
                        &&& cells@[k].ranking == best_rank(rows@, gk, sv[k])
                        &&& cells@[k].mention_count == capped(mention_total(rows@, gk, sv[k]))
                    },
            decreases subjects.len() - j,
        {
            let slot = g.slots[j];
            let subject = subjects[j].clone();
            assert(sv[j as int] == subjects@[j as int]@);
            cells.push(CompareBrandsCell { subject, ranking: slot.rank, mention_count: slot.count });
            j = j + 1;
        }
        let row = CompareBrandsRow {
            prompt_id: g.prompt_id.clone(),
            prompt_name: string_of(&g.name),
            provider: string_of(&g.provider),
            cells,
        };
        assert(out_key(row) == gk);
        out.push(row);
        g_idx = g_idx + 1;
    }
    proof {
        assert forall|m: int| #![trigger rows@[m]] 0 <= m < rows@.len() implies exists|i: int|
            #![trigger out@[i]]
            0 <= i < out@.len() && out_key(out@[i]) == row_key(rows@[m]) by {
            let i = pos[m];
            assert(out_key(out@[i]) == group_key(final_groups[i]));
            assert(out_key(out@[i]) == row_key(rows@[m]));
        }
        assert forall|i: int, j: int| 0 <= i < j < out@.len() implies pair_lt(#[trigger] out_key(out@[i]), #[trigger] out_key(out@[j])) by {
            assert(pair_lt(group_key(final_groups[i]), group_key(final_groups[j])));
        }
    }
    out
}

/// Some row carries `key` exactly when one of them does at some index.
proof fn lemma_has_key_witness(rows: Seq<RawComparisonRow>, key: (Seq<char>, Seq<char>))
    requires
        has_key(rows, key),
    ensures
        exists|m: int| 0 <= m < rows.len() && row_key(#[trigger] rows[m]) == key,
    decreases rows.len(),
{
    if row_key(rows.last()) == key {
        assert(row_key(rows[rows.len() - 1]) == key);
    } else {
        lemma_has_key_witness(rows.drop_last(), key);
        let m = choose|m: int| 0 <= m < rows.drop_last().len() && row_key(#[trigger] rows.drop_last()[m]) == key;
        assert(rows[m] == rows.drop_last()[m]);
    }
}


// ---------------------------------------------------------------------------
// Trace ids and the response
// ---------------------------------------------------------------------------

/// A character of the Crockford base-32 alphabet that ULIDs are written in.
pub open spec fn is_crockford_char(c: char) -> bool {
    "0123456789ABCDEFGHJKMNPQRSTVWXYZ"@.contains(c)
}

/// `ulid::Ulid::new().to_string()`: a fresh ULID (time and randomness), which
/// the crate writes as 26 characters of its base-32 alphabet.
#[verifier::external_body]
fn mint_ulid() -> (s: String)
    ensures
        s@.len() == 26,
        forall|i: int| 0 <= i < 26 ==> is_crockford_char(#[trigger] s@[i]),
{
    ulid::Ulid::new().to_string()
}

/// The trace id of a response: the caller's `X-OpenGEO-Request-Id` value when
/// it sent one, else a freshly minted ULID.
pub fn resolve_trace_id(request_id: Option<&str>) -> (t: String)
    ensures
        match request_id {
            Some(h) => t@ == h@,
            None => t@.len() == 26 && forall|i: int| 0 <= i < 26 ==> is_crockford_char(#[trigger] t@[i]),
        },
{
    match request_id {
        Some(h) => h.to_owned(),
        None => mint_ulid(),
    }
}

/// The comparison response for a validated request and the store's rows.
pub fn assemble_comparison(
    plan: ComparisonPlan,
    trace_id: String,
    rows: &Vec<RawComparisonRow>,
) -> (out: CompareBrandsOutput)
    ensures
        out.window == plan.window,
        out.brand@ == plan.brand@,
        strings_view(out.competitors@) == strings_view(plan.competitors@),
        out.trace_id@ == trace_id@,
        forall|i: int, j: int|
            0 <= i < j < out.rows@.len() ==> pair_lt(#[trigger] out_key(out.rows@[i]), #[trigger] out_key(out.rows@[j])),
        forall|i: int| 0 <= i < out.rows@.len() ==> has_key(rows@, #[trigger] out_key(out.rows@[i])),
        covers_keys(rows@, out.rows@),
        forall|i: int| 0 <= i < out.rows@.len() ==> matrix_row_ok(#[trigger] out.rows@[i], rows@, strings_view(plan.subjects@)),
        forall|i: int, j: int| 0 <= i < out.rows@.len() && 0 <= j < out.rows@[i].cells@.len() ==> {
            let key = out_key(out.rows@[i]);
            let c = #[trigger] out.rows@[i].cells@[j];
            &&& c.ranking matches Some(b) ==> {
                &&& exists|m: int| 0 <= m < rows@.len() && row_counts(#[trigger] rows@[m], key, c.subject@) && rows@[m].ranking == Some(b)
                &&& forall|m: int| 0 <= m < rows@.len() && row_counts(#[trigger] rows@[m], key, c.subject@) && rows@[m].ranking is Some
                    ==> b <= rows@[m].ranking->0
            }
            &&& c.ranking is None ==> forall|m: int| 0 <= m < rows@.len() && row_counts(#[trigger] rows@[m], key, c.subject@)
                ==> rows@[m].ranking is None
        },
{
    let matrix = assemble_rows(&plan.subjects, rows);
    proof {
        let sv = strings_view(plan.subjects@);
        assert forall|i: int, j: int| 0 <= i < matrix@.len() && 0 <= j < matrix@[i].cells@.len() implies {
            let key = out_key(matrix@[i]);
            let c = #[trigger] matrix@[i].cells@[j];
            &&& c.ranking matches Some(b) ==> {
                &&& exists|m: int| 0 <= m < rows@.len() && row_counts(#[trigger] rows@[m], key, c.subject@) && rows@[m].ranking == Some(b)
                &&& forall|m: int| 0 <= m < rows@.len() && row_counts(#[trigger] rows@[m], key, c.subject@) && rows@[m].ranking is Some
                    ==> b <= rows@[m].ranking->0
            }
            &&& c.ranking is None ==> forall|m: int| 0 <= m < rows@.len() && row_counts(#[trigger] rows@[m], key, c.subject@)
                ==> rows@[m].ranking is None
        } by {
            assert(matrix_row_ok(matrix@[i], rows@, sv));
            assert(matrix@[i].cells@[j].subject@ == sv[j]);
            lemma_best_rank_is_lowest(rows@, out_key(matrix@[i]), sv[j]);
        }
    }
    let out = CompareBrandsOutput {
        window: plan.window,
        brand: plan.brand,
        competitors: plan.competitors,
        rows: matrix,
        trace_id,
    };
    out
}

} // verus!
