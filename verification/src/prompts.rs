//! `/v1/prompts`: the prompt CRUD rules (non-blank names, renames and
//! deletes only before the first run, tag normalisation) and
//! `POST /v1/prompts/suggest` (the suggestion prompt, the reading of the
//! model's answer, slugs, and tag resolution against the project's tags).

use vstd::prelude::*;

use crate::errors::{ApiError, api_error, api_error_msg, error_view};
use crate::wire::{parse_rfc3339, rfc3339_parse, Timestamp};
use crate::brand::{array_span, json_array_span};
use crate::json::{json_array_values, parse_json_array, find_member, first_member, lemma_first_member, JsonValue};
use crate::text::{
    ascii_lower_char, chars_of, concat3, dec, is_alphanumeric, join_strings, join_with, lower_char, push_dec,
    push_str, push_vec, split_chars, split_pieces, str_eq, string_of, strings_view, to_lowercase, trim, trimmed,
    unicode_alphanumeric, unicode_lower, vecs_view,
};

verus! {

/// Body of `POST /v1/prompts`.
#[derive(Debug)]
pub struct PromptCreate {
    pub name: String,
    pub text: String,
    pub tags: Vec<String>,
}

/// Body of `PUT /v1/prompts/:id`.
#[derive(Debug)]
pub struct PromptUpdate {
    pub name: String,
    pub text: String,
    pub tags: Vec<String>,
}

/// Reply to a prompt create or update.
#[derive(Debug)]
pub struct PromptMutationResult {
    pub id: String,
    pub name: String,
    pub text: String,
    pub tags: Vec<String>,
    /// The name changed, so the prompt id was re-derived.
    pub renamed: bool,
}

/// Query of `GET /v1/prompts/run-summary`.
#[derive(Debug)]
pub struct RunSummaryQuery {
    /// RFC 3339 lower bound; defaults to thirty days ago.
    pub since: Option<String>,
}

/// The default run-summary window: thirty days, in seconds.
pub const SUMMARY_WINDOW_SECS: i64 = 2_592_000;

/// The lower bound of a run summary: `since` when it is RFC 3339 (400
/// `invalid_since`, with the parser's complaint, otherwise), thirty days
/// before `now` when the query names none.
pub fn run_summary_since(q: &RunSummaryQuery, now: Timestamp) -> (r: Result<Timestamp, ApiError>)
    requires
        now.secs >= i64::MIN + SUMMARY_WINDOW_SECS,
    ensures
        match q.since {
            None => r matches Ok(t) && t == (Timestamp { secs: (now.secs - SUMMARY_WINDOW_SECS) as i64, nanos: now.nanos }),
            Some(raw) => match rfc3339_parse(raw@) {
                Ok(t) => r matches Ok(u) && u == t,
                Err(m) => r matches Err(e) && error_view(e) == (400u16, "invalid_since"@,
                    "`since` must be RFC3339: "@ + m),
            },
        },
{
    match &q.since {
        None => Ok(Timestamp { secs: now.secs - SUMMARY_WINDOW_SECS, nanos: now.nanos }),
        Some(raw) => match parse_rfc3339(raw.as_str()) {
            Ok(t) => Ok(t),
            Err(m) => {
                proof {
                    reveal_strlit("");
                }
                Err(api_error_msg(400, "invalid_since", concat3("`since` must be RFC3339: ", m.as_str(), "")))
            },
        },
    }
}

/// Query of `GET /v1/prompts/kpi-trend`.
#[derive(Debug)]
pub struct KpiTrendQuery {
    /// Window in hours (default 168).
    pub hours: Option<i32>,
}

/// The KPI-trend window: the requested hours, one week by default.
pub fn kpi_trend_hours(q: &KpiTrendQuery) -> (h: i32)
    ensures
        h == (match q.hours { Some(x) => x, None => 168i32 }),
{
    match q.hours {
        Some(x) => x,
        None => 168,
    }
}

// ---------------------------------------------------------------------------
// Names, ids and tags
// ---------------------------------------------------------------------------

/// The prompt name to store: trimmed and not blank (400 otherwise).
pub fn prompt_name(submitted: &str) -> (r: Result<String, ApiError>)
    ensures
        trim(submitted@).len() > 0 ==> (r matches Ok(n) && n@ == trim(submitted@)),
        trim(submitted@).len() == 0 ==> (r matches Err(e) && error_view(e) == (400u16, "empty_name"@,
            "prompt name must not be empty"@)),
{
    let t = trimmed(submitted);
    if t.len() == 0 {
        Err(api_error(400, "empty_name", "prompt name must not be empty"))
    } else {
        Ok(string_of(&t))
    }
}

/// 400 for a path id that is not a prompt id.
pub fn invalid_prompt_id(raw: &str) -> (e: ApiError)
    ensures
        error_view(e) == (400u16, "invalid_id"@, "`"@ + raw@ + "` is not a valid prompt id"@),
{
    api_error_msg(400, "invalid_id", concat3("`", raw, "` is not a valid prompt id"))
}

/// 404 for a prompt that does not exist in the project.
pub fn prompt_not_found(raw: &str) -> (e: ApiError)
    ensures
        error_view(e) == (404u16, "prompt_not_found"@, "no prompt with id `"@ + raw@ + "`"@),
{
    api_error_msg(404, "prompt_not_found", concat3("no prompt with id `", raw, "`"))
}

/// 409 for a name another prompt already has.
pub fn prompt_exists(name: &str) -> (e: ApiError)
    ensures
        error_view(e) == (409u16, "prompt_exists"@, "a prompt named `"@ + name@ + "` already exists"@),
{
    api_error_msg(409, "prompt_exists", concat3("a prompt named `", name, "` already exists"))
}

pub open spec fn prompt_rename_blocked_message(runs: nat) -> Seq<char> {
    "renaming this prompt changes its id; it has "@ + dec(runs)
        + " run(s). Re-keying existing runs is not supported — rename is only allowed before the first run."@
}

/// A rename re-derives the prompt id: allowed only while the prompt has no
/// runs, and only onto an id no other prompt holds (409 otherwise).
pub fn check_prompt_rename(renamed: bool, run_count: u64, new_id_taken: bool, name: &str) -> (r: Result<(), ApiError>)
    ensures
        !renamed ==> r is Ok,
        renamed && run_count > 0 ==> (r matches Err(e) && error_view(e) == (409u16, "rename_blocked_has_runs"@,
            prompt_rename_blocked_message(run_count as nat))),
        renamed && run_count == 0 && new_id_taken ==> (r matches Err(e) && error_view(e) == (409u16,
            "prompt_exists"@, "a prompt named `"@ + name@ + "` already exists"@)),
        renamed && run_count == 0 && !new_id_taken ==> r is Ok,
{
    if !renamed {
        return Ok(());
    }
    if run_count > 0 {
        let mut m: Vec<char> = chars_of("renaming this prompt changes its id; it has ");
        push_dec(&mut m, run_count);
        push_str(&mut m, " run(s). Re-keying existing runs is not supported — rename is only allowed before the first run.");
        return Err(api_error_msg(409, "rename_blocked_has_runs", string_of(&m)));
    }
    if new_id_taken {
        return Err(prompt_exists(name));
    }
    Ok(())
}

pub open spec fn delete_blocked_message(runs: nat) -> Seq<char> {
    "this prompt has "@ + dec(runs) + " run(s) and cannot be deleted; its run history references it."@
}

/// A prompt with runs cannot be deleted: its run history references it.
pub fn check_prompt_delete(run_count: u64) -> (r: Result<(), ApiError>)
    ensures
        run_count == 0 ==> r is Ok,
        run_count > 0 ==> (r matches Err(e) && error_view(e) == (409u16, "delete_blocked_has_runs"@,
            delete_blocked_message(run_count as nat))),
{
    if run_count == 0 {
        return Ok(());
    }
    let mut m: Vec<char> = chars_of("this prompt has ");
    push_dec(&mut m, run_count);
    push_str(&mut m, " run(s) and cannot be deleted; its run history references it.");
    Err(api_error_msg(409, "delete_blocked_has_runs", string_of(&m)))
}

/// Whether some entry of `v` lowercases to `key`.
pub open spec fn has_lowercase(v: Seq<Seq<char>>, key: Seq<char>) -> bool {
    exists|j: int| 0 <= j < v.len() && unicode_lower(#[trigger] v[j]) == key
}

/// Tags trimmed, blanks dropped, duplicates (compared lowercased) removed,
/// the first spelling kept.
pub open spec fn normalized_tags(tags: Seq<Seq<char>>) -> Seq<Seq<char>>
    decreases tags.len(),
{
    if tags.len() == 0 {
        Seq::empty()
    } else {
        let prev = normalized_tags(tags.drop_last());
        let t = trim(tags.last());
        if t.len() == 0 || has_lowercase(prev, unicode_lower(t)) {
            prev
        } else {
            prev.push(t)
        }
    }
}

/// The tags are trimmed and non-empty, and no two are equal ignoring case.
pub open spec fn tags_normal(tags: Seq<Seq<char>>) -> bool {
    &&& forall|i: int| 0 <= i < tags.len() ==> (#[trigger] tags[i]).len() > 0 && trim(tags[i]) == tags[i]
    &&& forall|i: int, j: int| 0 <= i < j < tags.len() ==> unicode_lower(#[trigger] tags[i]) != unicode_lower(#[trigger] tags[j])
}

proof fn lemma_normalized_tags_normal(tags: Seq<Seq<char>>)
    ensures
        tags_normal(normalized_tags(tags)),
    decreases tags.len(),
{
    if tags.len() > 0 {
        lemma_normalized_tags_normal(tags.drop_last());
        let prev = normalized_tags(tags.drop_last());
        let t = trim(tags.last());
        if !(t.len() == 0 || has_lowercase(prev, unicode_lower(t))) {
            let n = prev.push(t);
            crate::text::lemma_trim_edges(tags.last());
            crate::text::lemma_trim_fixed(t);
            assert forall|i: int| 0 <= i < n.len() implies (#[trigger] n[i]).len() > 0 && trim(n[i]) == n[i] by {
                if i < prev.len() {
                    assert(n[i] == prev[i]);
                }
            }
            assert forall|i: int, j: int| 0 <= i < j < n.len() implies unicode_lower(#[trigger] n[i]) != unicode_lower(#[trigger] n[j]) by {
                assert(n[i] == prev[i]);
                if j < prev.len() {
                    assert(n[j] == prev[j]);
                } else {
                    assert(n[j] == t);
                    if unicode_lower(prev[i]) == unicode_lower(t) {
                        assert(has_lowercase(prev, unicode_lower(t)));
                    }
                }
            }
        }
    }
}

proof fn lemma_normal_tags_fixed(tags: Seq<Seq<char>>)
    requires
        tags_normal(tags),
    ensures
        normalized_tags(tags) == tags,
    decreases tags.len(),
{
    if tags.len() > 0 {
        let d = tags.drop_last();
        assert(tags_normal(d)) by {
            assert forall|i: int| 0 <= i < d.len() implies (#[trigger] d[i]).len() > 0 && trim(d[i]) == d[i] by {
                assert(d[i] == tags[i]);
            }
            assert forall|i: int, j: int| 0 <= i < j < d.len() implies unicode_lower(#[trigger] d[i]) != unicode_lower(#[trigger] d[j]) by {
                assert(d[i] == tags[i]);
                assert(d[j] == tags[j]);
            }
        }
        lemma_normal_tags_fixed(d);
        let t = tags.last();
        assert(t == tags[tags.len() - 1]);
        if has_lowercase(d, unicode_lower(t)) {
            let j = choose|j: int| 0 <= j < d.len() && unicode_lower(#[trigger] d[j]) == unicode_lower(t);
            assert(d[j] == tags[j]);
        }
        assert(tags =~= d.push(t));
    }
}

/// Law: normalised tags are trimmed, non-empty and distinct ignoring case,
/// and normalising them again changes nothing.
pub proof fn lemma_normalize_tags_idempotent(tags: Seq<Seq<char>>)
    ensures
        tags_normal(normalized_tags(tags)),
        normalized_tags(normalized_tags(tags)) == normalized_tags(tags),
{
    lemma_normalized_tags_normal(tags);
    lemma_normal_tags_fixed(normalized_tags(tags));
}

/// The distinct spellings of `tags` (compared lowercased), the first kept,
/// in order.
pub open spec fn first_spellings(tags: Seq<Seq<char>>) -> Seq<Seq<char>>
    decreases tags.len(),
{
    if tags.len() == 0 {
        Seq::empty()
    } else {
        let prev = first_spellings(tags.drop_last());
        if has_lowercase(prev, unicode_lower(tags.last())) {
            prev
        } else {
            prev.push(tags.last())
        }
    }
}

/// Appends `t` to `out` unless an entry of `out` lowercases like it.
fn push_unless_seen(out: &mut Vec<String>, lowered: &mut Vec<String>, t: String)
    requires
        old(lowered)@.len() == old(out)@.len(),
        forall|j: int| 0 <= j < old(out)@.len() ==> (#[trigger] old(lowered)@[j])@ == unicode_lower(old(out)@[j]@),
    ensures
        final(lowered)@.len() == final(out)@.len(),
        forall|j: int| 0 <= j < final(out)@.len() ==> (#[trigger] final(lowered)@[j])@ == unicode_lower(final(out)@[j]@),
        strings_view(final(out)@) == if has_lowercase(strings_view(old(out)@), unicode_lower(t@)) {
            strings_view(old(out)@)
        } else {
            strings_view(old(out)@).push(t@)
        },
{
    let key = to_lowercase(t.as_str());
    let ghost sv = strings_view(out@);
    let mut j: usize = 0;
    while j < out.len()
        invariant
            j <= out.len(),
            lowered@.len() == out@.len(),
            out@ == old(out)@,
            lowered@ == old(lowered)@,
            sv == strings_view(out@),
            key@ == unicode_lower(t@),
            forall|q: int| 0 <= q < out@.len() ==> (#[trigger] lowered@[q])@ == unicode_lower(out@[q]@),
            forall|q: int| 0 <= q < j ==> unicode_lower(#[trigger] sv[q]) != key@,
        decreases out.len() - j,
    {
        assert(sv[j as int] == out@[j as int]@);
        assert(key@ == unicode_lower(t@));
        assert(lowered@[j as int]@ == unicode_lower(sv[j as int]));
        if str_eq(lowered[j].as_str(), key.as_str()) {
            assert(unicode_lower(sv[j as int]) == unicode_lower(t@));
            return;
        }
        j = j + 1;
    }
    assert(!has_lowercase(sv, unicode_lower(t@)));
    let ghost before = strings_view(out@);
    out.push(t);
    lowered.push(key);
    assert(strings_view(out@) =~= before.push(t@));
}

/// Trims tags, drops blanks and removes case-insensitive duplicates (the
/// first spelling wins).
pub fn normalize_tags(tags: &Vec<String>) -> (out: Vec<String>)
    ensures
        strings_view(out@) == normalized_tags(strings_view(tags@)),
{
    let ghost tv = strings_view(tags@);
    let mut out: Vec<String> = Vec::new();
    let mut lowered: Vec<String> = Vec::new();
    let mut i: usize = 0;
    assert(tv.subrange(0, 0) =~= Seq::<Seq<char>>::empty());
    assert(strings_view(out@) =~= Seq::<Seq<char>>::empty());
    while i < tags.len()
        invariant
            i <= tags.len(),
            tv == strings_view(tags@),
            lowered@.len() == out@.len(),
            forall|j: int| 0 <= j < out@.len() ==> (#[trigger] lowered@[j])@ == unicode_lower(out@[j]@),
            strings_view(out@) == normalized_tags(tv.subrange(0, i as int)),
        decreases tags.len() - i,
    {
        assert(tv.subrange(0, i + 1).drop_last() =~= tv.subrange(0, i as int));
        assert(tv[i as int] == tags@[i as int]@);
        let t = trimmed(tags[i].as_str());
        if t.len() > 0 {
            push_unless_seen(&mut out, &mut lowered, string_of(&t));
        }
        i = i + 1;
    }
    assert(tv.subrange(0, tags.len() as int) =~= tv);
    out
}

/// The project's tag vocabulary: the distinct spellings of all its prompts'
/// tags (compared lowercased), first spelling kept.
pub fn tag_vocabulary(tags: &Vec<String>) -> (out: Vec<String>)
    ensures
        strings_view(out@) == first_spellings(strings_view(tags@)),
{
    let ghost tv = strings_view(tags@);
    let mut out: Vec<String> = Vec::new();
    let mut lowered: Vec<String> = Vec::new();
    let mut i: usize = 0;
    assert(tv.subrange(0, 0) =~= Seq::<Seq<char>>::empty());
    assert(strings_view(out@) =~= Seq::<Seq<char>>::empty());
    while i < tags.len()
        invariant
            i <= tags.len(),
            tv == strings_view(tags@),
            lowered@.len() == out@.len(),
            forall|j: int| 0 <= j < out@.len() ==> (#[trigger] lowered@[j])@ == unicode_lower(out@[j]@),
            strings_view(out@) == first_spellings(tv.subrange(0, i as int)),
        decreases tags.len() - i,
    {
        assert(tv.subrange(0, i + 1).drop_last() =~= tv.subrange(0, i as int));
        assert(tv[i as int] == tags@[i as int]@);
        push_unless_seen(&mut out, &mut lowered, tags[i].clone());
        i = i + 1;
    }
    assert(tv.subrange(0, tags.len() as int) =~= tv);
    out
}

/// The tags of a suggested prompt: the existing tag whose lowercase equals
/// the category's (the first such), else the literal `AUTO`.
pub open spec fn resolved_tags(category: Option<Seq<char>>, existing: Seq<Seq<char>>) -> Seq<Seq<char>> {
    match category {
        Some(cat) => if has_lowercase(existing, unicode_lower(cat)) {
            seq![existing[choose_first_lowercase(existing, unicode_lower(cat))]]
        } else {
            seq!["AUTO"@]
        },
        None => seq!["AUTO"@],
    }
}

/// The index of the first entry of `v` that lowercases to `key`.
pub open spec fn choose_first_lowercase(v: Seq<Seq<char>>, key: Seq<char>) -> int
    decreases v.len(),
{
    if v.len() == 0 {
        0
    } else if unicode_lower(v[0]) == key {
        0
    } else {
        1 + choose_first_lowercase(v.drop_first(), key)
    }
}

proof fn lemma_choose_first_lowercase(v: Seq<Seq<char>>, key: Seq<char>, j: int)
    requires
        0 <= j <= v.len(),
        forall|q: int| 0 <= q < j ==> unicode_lower(#[trigger] v[q]) != key,
        j < v.len() ==> unicode_lower(v[j]) == key,
    ensures
        j < v.len() ==> choose_first_lowercase(v, key) == j,
    decreases j,
{
    if j > 0 && j < v.len() {
        assert forall|q: int| 0 <= q < j - 1 implies unicode_lower(#[trigger] v.drop_first()[q]) != key by {
            assert(v.drop_first()[q] == v[q + 1]);
        }
        lemma_choose_first_lowercase(v.drop_first(), key, j - 1);
    }
}

/// Resolves a model-proposed category into a tag set.
pub fn resolve_tags(category: Option<&str>, existing: &Vec<String>) -> (out: Vec<String>)
    ensures
        strings_view(out@) == resolved_tags(match category { Some(c) => Some(c@), None => None }, strings_view(existing@)),
{
    let ghost ev = strings_view(existing@);
    proof {
        reveal_strlit("AUTO");
    }
    match category {
        Some(cat) => {
            let key = to_lowercase(cat);
            let mut j: usize = 0;
            while j < existing.len()
                invariant
                    j <= existing.len(),
                    ev == strings_view(existing@),
                    category == Some(cat),
                    key@ == unicode_lower(cat@),
                    forall|q: int| 0 <= q < j ==> unicode_lower(#[trigger] ev[q]) != key@,
                decreases existing.len() - j,
            {
                assert(ev[j as int] == existing@[j as int]@);
                let l = to_lowercase(existing[j].as_str());
                if str_eq(l.as_str(), key.as_str()) {
                    proof {
                        assert(unicode_lower(ev[j as int]) == key@);
                        assert(has_lowercase(ev, unicode_lower(cat@)));
                        lemma_choose_first_lowercase(ev, key@, j as int);
                    }
                    let picked = existing[j].clone();
                    assert(picked@ == ev[j as int]);
                    let out = vec![picked];
                    assert(strings_view(out@) =~= seq![ev[j as int]]);
                    return out;
                }
                j = j + 1;
            }
            let out = vec!["AUTO".to_owned()];
            assert(strings_view(out@) =~= seq!["AUTO"@]);
            out
        },
        None => {
            let out = vec!["AUTO".to_owned()];
            assert(strings_view(out@) =~= seq!["AUTO"@]);
            out
        },
    }
}

// ---------------------------------------------------------------------------
// Slugs
// ---------------------------------------------------------------------------

/// Alphanumeric characters ASCII-lowercased, everything else a hyphen.
pub open spec fn slug_map(text: Seq<char>) -> Seq<char> {
    text.map_values(|c: char| if unicode_alphanumeric(c) { ascii_lower_char(c) } else { '-' })
}

/// The non-empty pieces, in order.
pub open spec fn nonempty_pieces(p: Seq<Seq<char>>) -> Seq<Seq<char>>
    decreases p.len(),
{
    if p.len() == 0 {
        Seq::empty()
    } else {
        let prev = nonempty_pieces(p.drop_last());
        if p.last().len() > 0 {
            prev.push(p.last())
        } else {
            prev
        }
    }
}

/// A short kebab-case slug of a text: its first five words of alphanumerics
/// (lowercased), joined by hyphens; `prompt` when there are none.
pub open spec fn slug_of(text: Seq<char>) -> Seq<char> {
    let words = nonempty_pieces(split_pieces(slug_map(text), '-'));
    let first = if words.len() <= 5 { words } else { words.subrange(0, 5) };
    let s = join_with(first, "-"@);
    if s.len() == 0 {
        "prompt"@
    } else {
        s
    }
}

proof fn lemma_join_empty_iff(v: Seq<Seq<char>>)
    requires
        forall|i: int| 0 <= i < v.len() ==> (#[trigger] v[i]).len() > 0,
    ensures
        (join_with(v, "-"@).len() == 0) == (v.len() == 0),
    decreases v.len(),
{
    reveal_strlit("-");
    if v.len() > 1 {
        lemma_join_empty_iff(v.drop_last());
    }
}

proof fn lemma_nonempty_pieces_nonempty(p: Seq<Seq<char>>)
    ensures
        forall|i: int| 0 <= i < nonempty_pieces(p).len() ==> (#[trigger] nonempty_pieces(p)[i]).len() > 0,
    decreases p.len(),
{
    if p.len() > 0 {
        lemma_nonempty_pieces_nonempty(p.drop_last());
        let prev = nonempty_pieces(p.drop_last());
        assert forall|i: int| 0 <= i < nonempty_pieces(p).len() implies (#[trigger] nonempty_pieces(p)[i]).len() > 0 by {
            if i < prev.len() {
                assert(nonempty_pieces(p)[i] == prev[i]);
            }
        }
    }
}

/// The words a slug is made of: the first five non-empty runs between
/// hyphens of the mapped text.
pub open spec fn slug_words(text: Seq<char>) -> Seq<Seq<char>> {
    let words = nonempty_pieces(split_pieces(slug_map(text), '-'));
    if words.len() <= 5 { words } else { words.subrange(0, 5) }
}

proof fn lemma_split_pieces_free(s: Seq<char>, sep: char)
    ensures
        forall|i: int| 0 <= i < split_pieces(s, sep).len() ==> !(#[trigger] split_pieces(s, sep)[i]).contains(sep),
    decreases s.len(),
{
    if s.len() > 0 {
        lemma_split_pieces_free(s.drop_last(), sep);
        crate::text::lemma_split_pieces_nonempty(s.drop_last(), sep);
        let prev = split_pieces(s.drop_last(), sep);
        assert forall|i: int| 0 <= i < split_pieces(s, sep).len() implies !(#[trigger] split_pieces(s, sep)[i]).contains(sep) by {
            if s.last() == sep {
                if i < prev.len() {
                    assert(split_pieces(s, sep)[i] == prev[i]);
                } else {
                    assert(split_pieces(s, sep)[i] =~= Seq::<char>::empty());
                }
            } else {
                if i < prev.len() - 1 {
                    assert(split_pieces(s, sep)[i] == prev[i]);
                } else {
                    let w = prev.last().push(s.last());
                    assert(split_pieces(s, sep)[i] == w);
                    assert(!prev[prev.len() - 1].contains(sep));
                    assert forall|j: int| 0 <= j < w.len() implies w[j] != sep by {
                        if j < w.len() - 1 {
                            assert(w[j] == prev.last()[j]);
                        }
                    }
                }
            }
        }
    }
}

proof fn lemma_nonempty_pieces_free(p: Seq<Seq<char>>, sep: char)
    requires
        forall|i: int| 0 <= i < p.len() ==> !(#[trigger] p[i]).contains(sep),
    ensures
        forall|i: int| 0 <= i < nonempty_pieces(p).len() ==> !(#[trigger] nonempty_pieces(p)[i]).contains(sep),
    decreases p.len(),
{
    if p.len() > 0 {
        assert forall|i: int| 0 <= i < p.drop_last().len() implies !(#[trigger] p.drop_last()[i]).contains(sep) by {
            assert(p.drop_last()[i] == p[i]);
        }
        lemma_nonempty_pieces_free(p.drop_last(), sep);
        let prev = nonempty_pieces(p.drop_last());
        assert forall|i: int| 0 <= i < nonempty_pieces(p).len() implies !(#[trigger] nonempty_pieces(p)[i]).contains(sep) by {
            if i < prev.len() {
                assert(nonempty_pieces(p)[i] == prev[i]);
            } else {
                assert(nonempty_pieces(p)[i] == p[p.len() - 1]);
            }
        }
    }
}

/// Joining non-empty, hyphen-free words with `-` gives a text that neither
/// starts nor ends with `-` and never holds two hyphens in a row.
proof fn lemma_join_dash_shape(v: Seq<Seq<char>>)
    requires
        v.len() > 0,
        forall|i: int| 0 <= i < v.len() ==> (#[trigger] v[i]).len() > 0 && !v[i].contains('-'),
    ensures
        join_with(v, "-"@).len() > 0,
        join_with(v, "-"@)[0] != '-',
        join_with(v, "-"@).last() != '-',
        forall|j: int| 0 <= j < join_with(v, "-"@).len() - 1
            ==> !(#[trigger] join_with(v, "-"@)[j] == '-' && join_with(v, "-"@)[j + 1] == '-'),
    decreases v.len(),
{
    reveal_strlit("-");
    let w = v[0];
    assert(w[0] != '-' && w.last() != '-') by {
        assert(w.contains(w[0]) ==> w[0] != '-');
        assert(!w.contains('-'));
        assert(w[0] == w[0]);
        if w[0] == '-' {
            assert(w.contains('-'));
        }
        if w.last() == '-' {
            assert(w[w.len() - 1] == '-');
            assert(w.contains('-'));
        }
    }
    if v.len() > 1 {
        let d = v.drop_last();
        assert forall|i: int| 0 <= i < d.len() implies (#[trigger] d[i]).len() > 0 && !d[i].contains('-') by {
            assert(d[i] == v[i]);
        }
        lemma_join_dash_shape(d);
        let left = join_with(d, "-"@);
        let l = v.last();
        assert(l == v[v.len() - 1]);
        let r = join_with(v, "-"@);
        assert(r == left + seq!['-'] + l);
        if l[0] == '-' {
            assert(l.contains('-'));
        }
        if l.last() == '-' {
            assert(l[l.len() - 1] == '-');
            assert(l.contains('-'));
        }
        assert(r[0] == left[0]);
        assert(r.last() == l.last());
        assert forall|j: int| 0 <= j < r.len() - 1 implies !(#[trigger] r[j] == '-' && r[j + 1] == '-') by {
            if j < left.len() - 1 {
                assert(r[j] == left[j] && r[j + 1] == left[j + 1]);
            } else if j == left.len() - 1 {
                assert(r[j] == left.last());
            } else if j == left.len() {
                assert(r[j + 1] == l[0]);
            } else {
                assert(r[j] == l[j - left.len() - 1]);
                if r[j] == '-' {
                    assert(l.contains('-'));
                }
            }
        }
    }
}

/// Law: a slug is `prompt` or one to five non-empty hyphen-free words joined
/// by `-`; either way it is non-empty, neither starts nor ends with `-`, and
/// never holds two hyphens in a row.
pub proof fn lemma_slug_shape(text: Seq<char>)
    ensures
        slug_words(text).len() <= 5,
        forall|i: int| 0 <= i < slug_words(text).len() ==> (#[trigger] slug_words(text)[i]).len() > 0
            && !slug_words(text)[i].contains('-'),
        slug_of(text) == if slug_words(text).len() == 0 { "prompt"@ } else { join_with(slug_words(text), "-"@) },
        slug_of(text).len() > 0,
        slug_of(text)[0] != '-',
        slug_of(text).last() != '-',
        forall|j: int| 0 <= j < slug_of(text).len() - 1 ==> !(#[trigger] slug_of(text)[j] == '-' && slug_of(text)[j + 1] == '-'),
{
    let pieces = split_pieces(slug_map(text), '-');
    let words = nonempty_pieces(pieces);
    lemma_split_pieces_free(slug_map(text), '-');
    lemma_nonempty_pieces_free(pieces, '-');
    lemma_nonempty_pieces_nonempty(pieces);
    let sw = slug_words(text);
    assert forall|i: int| 0 <= i < sw.len() implies (#[trigger] sw[i]).len() > 0 && !sw[i].contains('-') by {
        assert(sw[i] == words[i]);
    }
    lemma_join_empty_iff(sw);
    reveal_strlit("prompt");
    if sw.len() > 0 {
        lemma_join_dash_shape(sw);
    } else {
        assert(slug_of(text) == "prompt"@);
    }
}

proof fn lemma_split_pieces_keep(s: Seq<char>, sep: char, p: spec_fn(char) -> bool)
    requires
        forall|k: int| 0 <= k < s.len() ==> p(#[trigger] s[k]),
    ensures
        forall|i: int, j: int| 0 <= i < split_pieces(s, sep).len() && 0 <= j < split_pieces(s, sep)[i].len()
            ==> p(#[trigger] split_pieces(s, sep)[i][j]),
    decreases s.len(),
{
    if s.len() > 0 {
        let d = s.drop_last();
        assert forall|k: int| 0 <= k < d.len() implies p(#[trigger] d[k]) by {
            assert(d[k] == s[k]);
        }
        lemma_split_pieces_keep(d, sep, p);
        crate::text::lemma_split_pieces_nonempty(d, sep);
        let prev = split_pieces(d, sep);
        assert(p(s[s.len() - 1]));
        assert forall|i: int, j: int| 0 <= i < split_pieces(s, sep).len() && 0 <= j < split_pieces(s, sep)[i].len()
            implies p(#[trigger] split_pieces(s, sep)[i][j]) by {
            if s.last() == sep {
                if i < prev.len() {
                    assert(split_pieces(s, sep)[i] == prev[i]);
                }
            } else {
                if i < prev.len() - 1 {
                    assert(split_pieces(s, sep)[i] == prev[i]);
                } else {
                    let w = prev.last().push(s.last());
                    assert(split_pieces(s, sep)[i] == w);
                    if j < w.len() - 1 {
                        assert(w[j] == prev[prev.len() - 1][j]);
                    }
                }
            }
        }
    }
}

proof fn lemma_nonempty_pieces_keep(ps: Seq<Seq<char>>, p: spec_fn(char) -> bool)
    requires
        forall|i: int, j: int| 0 <= i < ps.len() && 0 <= j < ps[i].len() ==> p(#[trigger] ps[i][j]),
    ensures
        forall|i: int, j: int| 0 <= i < nonempty_pieces(ps).len() && 0 <= j < nonempty_pieces(ps)[i].len()
            ==> p(#[trigger] nonempty_pieces(ps)[i][j]),
    decreases ps.len(),
{
    if ps.len() > 0 {
        let d = ps.drop_last();
        assert forall|i: int, j: int| 0 <= i < d.len() && 0 <= j < d[i].len() implies p(#[trigger] d[i][j]) by {
            assert(d[i] == ps[i]);
        }
        lemma_nonempty_pieces_keep(d, p);
        let prev = nonempty_pieces(d);
        assert forall|i: int, j: int| 0 <= i < nonempty_pieces(ps).len() && 0 <= j < nonempty_pieces(ps)[i].len()
            implies p(#[trigger] nonempty_pieces(ps)[i][j]) by {
            if i < prev.len() {
                assert(nonempty_pieces(ps)[i] == prev[i]);
            } else {
                assert(nonempty_pieces(ps)[i] == ps[ps.len() - 1]);
            }
        }
    }
}

proof fn lemma_join_keep(v: Seq<Seq<char>>, p: spec_fn(char) -> bool)
    requires
        p('-'),
        forall|i: int, j: int| 0 <= i < v.len() && 0 <= j < v[i].len() ==> p(#[trigger] v[i][j]),
    ensures
        forall|k: int| 0 <= k < join_with(v, "-"@).len() ==> p(#[trigger] join_with(v, "-"@)[k]),
    decreases v.len(),
{
    reveal_strlit("-");
    if v.len() == 1 {
        assert forall|k: int| 0 <= k < join_with(v, "-"@).len() implies p(#[trigger] join_with(v, "-"@)[k]) by {
            assert(join_with(v, "-"@)[k] == v[0][k]);
        }
    } else if v.len() > 1 {
        let d = v.drop_last();
        assert forall|i: int, j: int| 0 <= i < d.len() && 0 <= j < d[i].len() implies p(#[trigger] d[i][j]) by {
            assert(d[i] == v[i]);
        }
        lemma_join_keep(d, p);
        let left = join_with(d, "-"@);
        let l = v[v.len() - 1];
        assert(join_with(v, "-"@) == left + seq!['-'] + l);
        assert forall|k: int| 0 <= k < join_with(v, "-"@).len() implies p(#[trigger] join_with(v, "-"@)[k]) by {
            if k < left.len() {
                assert(join_with(v, "-"@)[k] == left[k]);
            } else if k > left.len() {
                assert(join_with(v, "-"@)[k] == l[k - left.len() - 1]);
            }
        }
    }
}

/// Not an ASCII capital letter.
pub open spec fn not_ascii_upper(c: char) -> bool {
    !('A' <= c && c <= 'Z')
}

/// Law: a slug holds no ASCII capital letter; a text with no alphanumeric
/// character gets the slug `prompt`, and a text with an alphanumeric
/// character other than `-` gets at least one word.
pub proof fn lemma_slug_content(text: Seq<char>)
    ensures
        forall|k: int| 0 <= k < slug_of(text).len() ==> not_ascii_upper(#[trigger] slug_of(text)[k]),
        (forall|k: int| 0 <= k < text.len() ==> !unicode_alphanumeric(#[trigger] text[k])) ==> slug_of(text) == "prompt"@,
        (exists|k: int| 0 <= k < text.len() && unicode_alphanumeric(#[trigger] text[k]) && text[k] != '-')
            ==> slug_words(text).len() > 0,
{
    let m = slug_map(text);
    let pieces = split_pieces(m, '-');
    let words = nonempty_pieces(pieces);
    let p = |c: char| not_ascii_upper(c);
    assert forall|k: int| 0 <= k < m.len() implies p(#[trigger] m[k]) by {
        crate::text::lemma_ascii_lower_char(text[k]);
        let c = text[k];
        if 'A' <= c && c <= 'Z' {
            assert(((c as u32) + 32) as char as u32 == (c as u32) + 32);
        }
    }
    lemma_split_pieces_keep(m, '-', p);
    lemma_nonempty_pieces_keep(pieces, p);
    let sw = slug_words(text);
    assert forall|i: int, j: int| 0 <= i < sw.len() && 0 <= j < sw[i].len() implies p(#[trigger] sw[i][j]) by {
        assert(sw[i] == words[i]);
    }
    lemma_slug_shape(text);
    reveal_strlit("prompt");
    if sw.len() > 0 {
        lemma_join_keep(sw, p);
    }
    if forall|k: int| 0 <= k < text.len() ==> !unicode_alphanumeric(#[trigger] text[k]) {
        let q = |c: char| c == '-';
        assert forall|k: int| 0 <= k < m.len() implies q(#[trigger] m[k]) by {
            assert(!unicode_alphanumeric(text[k]));
        }
        lemma_split_pieces_keep(m, '-', q);
        lemma_split_pieces_free(m, '-');
        assert forall|i: int| 0 <= i < pieces.len() implies (#[trigger] pieces[i]).len() == 0 by {
            if pieces[i].len() > 0 {
                assert(q(pieces[i][0]));
                assert(pieces[i].contains('-'));
            }
        }
        lemma_no_nonempty_pieces(pieces);
    }
    if exists|k: int| 0 <= k < text.len() && unicode_alphanumeric(#[trigger] text[k]) && text[k] != '-' {
        let k = choose|k: int| 0 <= k < text.len() && unicode_alphanumeric(#[trigger] text[k]) && text[k] != '-';
        crate::text::lemma_ascii_lower_char(text[k]);
        assert(m[k] != '-') by {
            let c = text[k];
            if 'A' <= c && c <= 'Z' {
                assert(((c as u32) + 32) as char as u32 == (c as u32) + 32);
            }
        }
        lemma_piece_holding(m, '-', k);
        let i = choose|i: int| 0 <= i < pieces.len() && (#[trigger] pieces[i]).len() > 0;
        lemma_some_nonempty_piece(pieces, i);
    }
}

proof fn lemma_no_nonempty_pieces(ps: Seq<Seq<char>>)
    requires
        forall|i: int| 0 <= i < ps.len() ==> (#[trigger] ps[i]).len() == 0,
    ensures
        nonempty_pieces(ps).len() == 0,
    decreases ps.len(),
{
    if ps.len() > 0 {
        let d = ps.drop_last();
        assert forall|i: int| 0 <= i < d.len() implies (#[trigger] d[i]).len() == 0 by {
            assert(d[i] == ps[i]);
        }
        lemma_no_nonempty_pieces(d);
        assert(ps.last() == ps[ps.len() - 1]);
    }
}

proof fn lemma_some_nonempty_piece(ps: Seq<Seq<char>>, i: int)
    requires
        0 <= i < ps.len(),
        ps[i].len() > 0,
    ensures
        nonempty_pieces(ps).len() > 0,
    decreases ps.len(),
{
    if i < ps.len() - 1 {
        assert(ps.drop_last()[i] == ps[i]);
        lemma_some_nonempty_piece(ps.drop_last(), i);
        lemma_nonempty_pieces_grow(ps);
    }
}

proof fn lemma_nonempty_pieces_grow(ps: Seq<Seq<char>>)
    requires
        ps.len() > 0,
    ensures
        nonempty_pieces(ps).len() >= nonempty_pieces(ps.drop_last()).len(),
{
}

/// A character other than the separator lies in a non-empty piece.
proof fn lemma_piece_holding(s: Seq<char>, sep: char, k: int)
    requires
        0 <= k < s.len(),
        s[k] != sep,
    ensures
        exists|i: int| 0 <= i < split_pieces(s, sep).len() && (#[trigger] split_pieces(s, sep)[i]).len() > 0,
    decreases s.len(),
{
    let d = s.drop_last();
    crate::text::lemma_split_pieces_nonempty(d, sep);
    let prev = split_pieces(d, sep);
    if k < s.len() - 1 {
        assert(d[k] == s[k]);
        lemma_piece_holding(d, sep, k);
        let i = choose|i: int| 0 <= i < prev.len() && (#[trigger] prev[i]).len() > 0;
        if s.last() == sep {
            assert(split_pieces(s, sep)[i] == prev[i]);
        } else if i < prev.len() - 1 {
            assert(split_pieces(s, sep)[i] == prev[i]);
        } else {
            assert(split_pieces(s, sep)[i] == prev.last().push(s.last()));
        }
    } else {
        assert(s.last() == s[k]);
        let j = prev.len() - 1;
        assert(split_pieces(s, sep)[j] == prev.last().push(s.last()));
    }
}

/// Builds a short kebab-case slug from prompt text.
pub fn slug_from_text(text: &str) -> (slug: String)
    ensures
        slug@ == slug_of(text@),
{
    let v = chars_of(text);
    let mut mapped: Vec<char> = Vec::new();
    let mut i: usize = 0;
    while i < v.len()
        invariant
            i <= v.len(),
            v@ == text@,
            mapped@ == slug_map(v@.subrange(0, i as int)),
        decreases v.len() - i,
    {
        let c = v[i];
        let m = if is_alphanumeric(c) { lower_char(c) } else { '-' };
        mapped.push(m);
        assert(mapped@ =~= slug_map(v@.subrange(0, i + 1)));
        i = i + 1;
    }
    assert(v@.subrange(0, v.len() as int) =~= v@);
    let pieces = split_chars(&mapped, '-');
    let ghost pv = vecs_view(pieces@);
    let mut words: Vec<String> = Vec::new();
    let mut k: usize = 0;
    assert(pv.subrange(0, 0) =~= Seq::<Seq<char>>::empty());
    assert(strings_view(words@) =~= Seq::<Seq<char>>::empty());
    while k < pieces.len()
        invariant
            k <= pieces.len(),
            pv == vecs_view(pieces@),
            pieces@.len() == pv.len(),
            strings_view(words@) == nonempty_pieces(pv.subrange(0, k as int)),
        decreases pieces.len() - k,
    {
        assert(pv.subrange(0, k + 1).drop_last() =~= pv.subrange(0, k as int));
        assert(pv[k as int] == pieces@[k as int]@);
        if pieces[k].len() > 0 {
            let ghost before = strings_view(words@);
            words.push(string_of(&pieces[k]));
            assert(strings_view(words@) =~= before.push(pv[k as int]));
        }
        k = k + 1;
    }
    assert(pv.subrange(0, pieces.len() as int) =~= pv);
    let ghost all = strings_view(words@);
    if words.len() > 5 {
        words.truncate(5);
        assert(strings_view(words@) =~= all.subrange(0, 5));
    }
    let joined = join_strings(&words, "-");
    proof {
        let first = if all.len() <= 5 { all } else { all.subrange(0, 5) };
        lemma_nonempty_pieces_nonempty(split_pieces(slug_map(text@), '-'));
        assert forall|q: int| 0 <= q < first.len() implies (#[trigger] first[q]).len() > 0 by {
            assert(first[q] == all[q]);
        }
        lemma_join_empty_iff(first);
    }
    if joined.as_str().unicode_len() == 0 {
        "prompt".to_owned()
    } else {
        joined
    }
}


// ---------------------------------------------------------------------------
// Suggestions
// ---------------------------------------------------------------------------

/// Body of `POST /v1/prompts/suggest`.
#[derive(Debug)]
pub struct SuggestPromptsRequest {
    /// Wire name of the provider to ask (must have a configured key).
    pub provider: String,
}

/// A suggested prompt.
#[derive(Debug)]
pub struct SuggestedPrompt {
    pub name: String,
    pub text: String,
    /// The matched existing project tag, or `AUTO`.
    pub tags: Vec<String>,
}

/// Reply to `POST /v1/prompts/suggest`.
#[derive(Debug)]
pub struct SuggestPromptsResult {
    pub prompts: Vec<SuggestedPrompt>,
    pub provider: String,
    pub model: String,
}

/// What is known about the requested provider.
#[derive(Debug, Clone, Copy)]
pub struct ProviderAvailability {
    /// The name parses in the provider-name grammar.
    pub known: bool,
    /// A provider registry was built at boot.
    pub registry_loaded: bool,
    /// The registry holds the provider (its key is configured).
    pub configured: bool,
}

/// The provider checks of a suggestion request, in order: an unknown name
/// (400), no registry (503), no configured key (400).
pub fn check_suggest_provider(provider: &str, a: ProviderAvailability) -> (r: Result<(), ApiError>)
    ensures
        !a.known ==> (r matches Err(e) && error_view(e) == (400u16, "invalid_provider"@, "unknown provider `"@
            + provider@ + "`"@)),
        a.known && !a.registry_loaded ==> (r matches Err(e) && error_view(e) == (503u16, "no_registry"@,
            "API booted without a provider registry; configure a provider key first"@)),
        a.known && a.registry_loaded && !a.configured ==> (r matches Err(e) && error_view(e) == (400u16,
            "provider_not_configured"@, "provider `"@ + provider@ + "` has no configured API key"@)),
        a.known && a.registry_loaded && a.configured ==> r is Ok,
{
    if !a.known {
        return Err(api_error_msg(400, "invalid_provider", concat3("unknown provider `", provider, "`")));
    }
    if !a.registry_loaded {
        return Err(api_error(503, "no_registry", "API booted without a provider registry; configure a provider key first"));
    }
    if !a.configured {
        return Err(api_error_msg(400, "provider_not_configured", concat3("provider `", provider, "` has no configured API key")));
    }
    Ok(())
}

/// The question put to the model for prompt suggestions.
pub open spec fn suggest_prompt_text(
    brand: Seq<char>,
    variants: Seq<Seq<char>>,
    competitors: Seq<Seq<char>>,
    tags: Seq<Seq<char>>,
) -> Seq<char> {
    let alias = if variants.len() == 0 {
        Seq::<char>::empty()
    } else {
        " (also known as: "@ + join_with(variants, ", "@) + ")"@
    };
    let comp = if competitors.len() == 0 {
        Seq::<char>::empty()
    } else {
        " Known competitors include: "@ + join_with(competitors, ", "@) + "."@
    };
    let cat = if tags.len() == 0 {
        " Set \"category\" to a short topical label for each prompt."@
    } else {
        " For \"category\", reuse one of these existing tags when it fits: "@ + join_with(tags, ", "@)
            + ". Only invent a new short label if none fit."@
    };
    "You are helping track how the brand \""@ + brand + "\""@ + alias + " appears in AI search answers."@ + comp
        + " Generate a set of natural-language search prompts that a real user might ask an AI assistant, where the answer would likely mention \""@
        + brand
        + "\" or its competitors. Cover category comparisons, \"best X for Y\" questions, alternatives, and use-case queries. Respond with ONLY a JSON array of 5 to 8 objects, each {\"name\": \"<short kebab-case slug>\", \"text\": \"<the prompt>\", \"category\": \"<topical label>\"}."@
        + cat + " No prose, no markdown, no code fences."@
}

/// Builds the suggestion prompt from the brand, its variants, its
/// competitors' names and the project's tag vocabulary.
pub fn suggest_prompt(brand: &str, variants: &Vec<String>, competitors: &Vec<String>, tags: &Vec<String>) -> (p: String)
    ensures
        p@ == suggest_prompt_text(brand@, strings_view(variants@), strings_view(competitors@), strings_view(tags@)),
{
    let mut out: Vec<char> = chars_of("You are helping track how the brand \"");
    push_str(&mut out, brand);
    push_str(&mut out, "\"");
    if variants.len() > 0 {
        push_str(&mut out, " (also known as: ");
        let j = join_strings(variants, ", ");
        push_str(&mut out, j.as_str());
        push_str(&mut out, ")");
    }
    push_str(&mut out, " appears in AI search answers.");
    if competitors.len() > 0 {
        push_str(&mut out, " Known competitors include: ");
        let j = join_strings(competitors, ", ");
        push_str(&mut out, j.as_str());
        push_str(&mut out, ".");
    }
    push_str(
        &mut out,
        " Generate a set of natural-language search prompts that a real user might ask an AI assistant, where the answer would likely mention \"",
    );
    push_str(&mut out, brand);
    push_str(
        &mut out,
        "\" or its competitors. Cover category comparisons, \"best X for Y\" questions, alternatives, and use-case queries. Respond with ONLY a JSON array of 5 to 8 objects, each {\"name\": \"<short kebab-case slug>\", \"text\": \"<the prompt>\", \"category\": \"<topical label>\"}.",
    );
    if tags.len() > 0 {
        push_str(&mut out, " For \"category\", reuse one of these existing tags when it fits: ");
        let j = join_strings(tags, ", ");
        push_str(&mut out, j.as_str());
        push_str(&mut out, ". Only invent a new short label if none fit.");
    } else {
        push_str(&mut out, " Set \"category\" to a short topical label for each prompt.");
    }
    push_str(&mut out, " No prose, no markdown, no code fences.");
    assert(out@ =~= suggest_prompt_text(brand@, strings_view(variants@), strings_view(competitors@), strings_view(tags@)));
    string_of(&out)
}

/// The string member `key` of an object (the first member of that name),
/// trimmed, when it is a string.
pub open spec fn member_text(members: Seq<(String, JsonValue)>, key: Seq<char>) -> Option<Seq<char>> {
    match first_member(members, key) {
        Some(i) => match members[i].1 {
            JsonValue::Str(s) => Some(trim(s@)),
            _ => None,
        },
        None => None,
    }
}

/// A suggested entry: an object whose `text` is a non-blank string; its
/// `name` (or the slug of its text when absent or blank) and its `category`
/// (when a non-blank string).
pub open spec fn parsed_entry(v: JsonValue) -> Option<(Seq<char>, Seq<char>, Option<Seq<char>>)> {
    match v {
        JsonValue::Object(members) => match member_text(members@, "text"@) {
            Some(text) => if text.len() == 0 {
                None
            } else {
                let name = match member_text(members@, "name"@) {
                    Some(n) => if n.len() > 0 { n } else { slug_of(text) },
                    None => slug_of(text),
                };
                let category = match member_text(members@, "category"@) {
                    Some(c) => if c.len() > 0 { Some(c) } else { None },
                    None => None,
                };
                Some((text, name, category))
            },
            None => None,
        },
        _ => None,
    }
}

/// The parsed entries, in order.
pub open spec fn parsed_entries(vs: Seq<JsonValue>) -> Seq<(Seq<char>, Seq<char>, Option<Seq<char>>)>
    decreases vs.len(),
{
    if vs.len() == 0 {
        Seq::empty()
    } else {
        let prev = parsed_entries(vs.drop_last());
        match parsed_entry(vs.last()) {
            Some(e) => prev.push(e),
            None => prev,
        }
    }
}

proof fn lemma_parsed_entry_wellformed(v: JsonValue)
    ensures
        parsed_entry(v) matches Some(e) ==> e.0.len() > 0 && trim(e.0) == e.0 && e.1.len() > 0
            && (e.2 matches Some(c) ==> c.len() > 0),
{
    if let JsonValue::Object(members) = v {
        if let Some(text) = member_text(members@, "text"@) {
            if text.len() > 0 {
                let i = first_member(members@, "text"@)->0;
                if let JsonValue::Str(t) = members@[i].1 {
                    crate::text::lemma_trim_edges(t@);
                    crate::text::lemma_trim_fixed(text);
                }
                lemma_slug_shape(text);
            }
        }
    }
}

/// Law: every suggested prompt read from a model answer has a non-empty,
/// trimmed text, a non-empty name, and no blank category.
pub proof fn lemma_parsed_prompts_wellformed(vs: Seq<JsonValue>)
    ensures
        forall|i: int| 0 <= i < parsed_entries(vs).len() ==> {
            let e = #[trigger] parsed_entries(vs)[i];
            &&& e.0.len() > 0
            &&& trim(e.0) == e.0
            &&& e.1.len() > 0
            &&& e.2 matches Some(c) ==> c.len() > 0
        },
    decreases vs.len(),
{
    if vs.len() > 0 {
        lemma_parsed_prompts_wellformed(vs.drop_last());
        lemma_parsed_entry_wellformed(vs.last());
        let prev = parsed_entries(vs.drop_last());
        assert forall|i: int| 0 <= i < parsed_entries(vs).len() implies {
            let e = #[trigger] parsed_entries(vs)[i];
            &&& e.0.len() > 0
            &&& trim(e.0) == e.0
            &&& e.1.len() > 0
            &&& e.2 matches Some(c) ==> c.len() > 0
        } by {
            if i < prev.len() {
                assert(parsed_entries(vs)[i] == prev[i]);
            }
        }
    }
}

/// A suggested prompt before its tags are resolved.
#[derive(Debug)]
pub struct ParsedPrompt {
    pub name: String,
    pub text: String,
    pub category: Option<String>,
}

pub open spec fn parsed_view(p: ParsedPrompt) -> (Seq<char>, Seq<char>, Option<Seq<char>>) {
    (p.text@, p.name@, match p.category { Some(c) => Some(c@), None => None })
}

pub open spec fn parsed_views(ps: Seq<ParsedPrompt>) -> Seq<(Seq<char>, Seq<char>, Option<Seq<char>>)> {
    ps.map_values(|p: ParsedPrompt| parsed_view(p))
}

fn member_string(members: &Vec<(String, JsonValue)>, key: &str) -> (r: Option<String>)
    ensures
        match member_text(members@, key@) {
            Some(t) => r matches Some(s) && s@ == t,
            None => r is None,
        },
{
    proof {
        lemma_first_member(members@, key@);
    }
    match find_member(members, key) {
        Some(i) => match &members[i].1 {
            JsonValue::Str(s) => Some(string_of(&trimmed(s.as_str()))),
            _ => None,
        },
        None => None,
    }
}

fn parse_entry(v: &JsonValue) -> (r: Option<ParsedPrompt>)
    ensures
        match parsed_entry(*v) {
            Some(e) => r matches Some(p) && parsed_view(p) == e,
            None => r is None,
        },
{
    proof {
        reveal_strlit("text");
        reveal_strlit("name");
        reveal_strlit("category");
    }
    match v {
        JsonValue::Object(members) => {
            let text = match member_string(members, "text") {
                Some(t) => t,
                None => return None,
            };
            if text.as_str().unicode_len() == 0 {
                return None;
            }
            let name = match member_string(members, "name") {
                Some(n) => if n.as_str().unicode_len() > 0 { n } else { slug_from_text(text.as_str()) },
                None => slug_from_text(text.as_str()),
            };
            let category = match member_string(members, "category") {
                Some(c) => if c.as_str().unicode_len() > 0 { Some(c) } else { None },
                None => None,
            };
            Some(ParsedPrompt { name, text, category })
        },
        _ => None,
    }
}

/// The prompts in a parsed answer array; an answer with none is refused.
pub fn suggested_prompts(values: &Vec<JsonValue>) -> (r: Result<Vec<ParsedPrompt>, String>)
    ensures
        parsed_entries(values@).len() > 0 ==> (r matches Ok(ps) && parsed_views(ps@) == parsed_entries(values@)),
        parsed_entries(values@).len() == 0 ==> (r matches Err(m) && m@ == "model returned an empty prompt list"@),
{
    let mut out: Vec<ParsedPrompt> = Vec::new();
    let mut i: usize = 0;
    while i < values.len()
        invariant
            i <= values.len(),
            parsed_views(out@) == parsed_entries(values@.subrange(0, i as int)),
        decreases values.len() - i,
    {
        assert(values@.subrange(0, i + 1).drop_last() =~= values@.subrange(0, i as int));
        match parse_entry(&values[i]) {
            Some(p) => {
                let ghost before = parsed_views(out@);
                let ghost pv = parsed_view(p);
                out.push(p);
                assert(parsed_views(out@) =~= before.push(pv));
            },
            None => {},
        }
        i = i + 1;
    }
    assert(values@.subrange(0, values.len() as int) =~= values@);
    if out.len() == 0 {
        return Err("model returned an empty prompt list".to_owned());
    }
    Ok(out)
}

/// A suggested prompt with its tags resolved against the project's tags.
pub fn suggested_prompt(p: ParsedPrompt, existing: &Vec<String>) -> (s: SuggestedPrompt)
    ensures
        s.name == p.name,
        s.text == p.text,
        strings_view(s.tags@) == resolved_tags(match p.category { Some(c) => Some(c@), None => None }, strings_view(existing@)),
{
    let tags = match &p.category {
        Some(c) => resolve_tags(Some(c.as_str()), existing),
        None => resolve_tags(None, existing),
    };
    SuggestedPrompt { name: p.name, text: p.text, tags }
}

/// Reads the suggested prompts from a model answer: the JSON array inside it
/// (an error when there is none or it does not parse), then the prompts as
/// [`suggested_prompts`] reads them.
pub fn parse_suggested_prompts(text: &str) -> (r: Result<Vec<ParsedPrompt>, String>)
    ensures
        match array_span(text@) {
            None => r matches Err(m) && m@ == "model response did not contain a JSON array"@,
            Some(span) => match json_array_values(span) {
                Err(e) => r matches Err(m) && m@ == "could not parse JSON array: "@ + e,
                Ok(vs) => if parsed_entries(vs).len() > 0 {
                    r matches Ok(ps) && parsed_views(ps@) == parsed_entries(vs)
                } else {
                    r matches Err(m) && m@ == "model returned an empty prompt list"@
                },
            },
        },
        r matches Ok(ps) ==> ps@.len() > 0 && forall|i: int| 0 <= i < ps@.len() ==> {
            let p = #[trigger] ps@[i];
            &&& p.text@.len() > 0
            &&& trim(p.text@) == p.text@
            &&& p.name@.len() > 0
        },
{
    let span = match json_array_span(text) {
        Some(s) => s,
        None => return Err("model response did not contain a JSON array".to_owned()),
    };
    match parse_json_array(span.as_str()) {
        Err(e) => {
            proof {
                reveal_strlit("");
            }
            Err(concat3("could not parse JSON array: ", e.as_str(), ""))
        },
        Ok(values) => {
            proof {
                lemma_parsed_prompts_wellformed(values@);
            }
            let r = suggested_prompts(&values);
            proof {
                if let Ok(ps) = &r {
                    assert forall|i: int| 0 <= i < ps@.len() implies parsed_view(#[trigger] ps@[i]) == parsed_entries(values@)[i] by {
                        assert(parsed_views(ps@)[i] == parsed_view(ps@[i]));
                    }
                }
            }
            r
        },
    }
}

} // verus!
