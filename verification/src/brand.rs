//! `GET`/`PUT /v1/setup/brand` and `POST /v1/setup/brand/suggest-competitors`:
//! the brand-edit rules (a non-blank name; a rename, which re-derives the
//! project id, only before the first run), the competitor-suggestion prompt,
//! and the reading of the model's answer.

use vstd::prelude::*;

use crate::errors::{ApiError, api_error, api_error_msg, error_view};
use crate::json::{json_array_values, parse_json_array, JsonValue};
use crate::text::{
    find_first, find_last, first_index, last_index, chars_of, concat3, dec, join_strings, join_with, push_chars, push_dec, str_eq, string_of, strings_view,
    trim, trimmed,
};

verus! {

/// A competitor as configured: its name and the variants it is known by.
#[derive(Debug)]
pub struct CompetitorConfig {
    pub name: String,
    pub variants: Vec<String>,
}

/// Body of `PUT /v1/setup/brand`.
#[derive(Debug)]
pub struct BrandUpdate {
    pub name: String,
    pub variants: Vec<String>,
    pub competitors: Vec<CompetitorConfig>,
    pub site_url: Option<String>,
}

/// Reply to `PUT /v1/setup/brand`.
#[derive(Debug)]
pub struct BrandUpdateResult {
    pub project_id: String,
    pub name: String,
    pub variants: Vec<String>,
    pub competitors: Vec<CompetitorConfig>,
    pub site_url: Option<String>,
    /// The name changed, so the project id was re-derived; the API must be
    /// restarted for the new identity to take effect.
    pub restart_required: bool,
}

/// Body of `POST /v1/setup/brand/suggest-competitors`.
#[derive(Debug)]
pub struct SuggestRequest {
    /// Wire name of the provider to ask (must have a configured key).
    pub provider: String,
}

/// The brand name to store: the submitted name, trimmed; a blank name is
/// refused 400 `empty_name`.
pub fn brand_name(submitted: &str) -> (r: Result<String, ApiError>)
    ensures
        trim(submitted@).len() > 0 ==> (r matches Ok(n) && n@ == trim(submitted@)),
        trim(submitted@).len() == 0 ==> (r matches Err(e) && error_view(e) == (400u16, "empty_name"@,
            "brand name must not be empty"@)),
{
    let t = trimmed(submitted);
    if t.len() == 0 {
        Err(api_error(400, "empty_name", "brand name must not be empty"))
    } else {
        Ok(string_of(&t))
    }
}

pub open spec fn rename_blocked_message(runs: nat) -> Seq<char> {
    "renaming the brand changes project_id and all prompt ids; this project has "@ + dec(runs)
        + " prompt run(s). Re-keying existing runs is not yet supported — rename is only allowed before the first run."@
}

/// A rename re-keys the project and every prompt, which is allowed only
/// while the project has no prompt runs; otherwise 409.
pub fn check_rename(renamed: bool, prompt_runs: u64) -> (r: Result<(), ApiError>)
    ensures
        !renamed || prompt_runs == 0 ==> r is Ok,
        renamed && prompt_runs > 0 ==> (r matches Err(e) && error_view(e) == (409u16,
            "rename_blocked_has_runs"@, rename_blocked_message(prompt_runs as nat))),
{
    if !renamed || prompt_runs == 0 {
        return Ok(());
    }
    let mut msg: Vec<char> = chars_of("renaming the brand changes project_id and all prompt ids; this project has ");
    push_dec(&mut msg, prompt_runs);
    let tail = chars_of(
        " prompt run(s). Re-keying existing runs is not yet supported — rename is only allowed before the first run.",
    );
    let mut s = string_of(&msg);
    push_chars(&mut s, &tail);
    Err(api_error_msg(409, "rename_blocked_has_runs", s))
}

/// The reply to a brand edit: the project id is the re-derived one when the
/// name changed identity (`new_id` differs from `current_id`).
pub fn brand_update_result(current_id: String, new_id: String, name: String, body: BrandUpdate) -> (r: BrandUpdateResult)
    ensures
        r.restart_required == (current_id@ != new_id@),
        r.project_id@ == (if current_id@ != new_id@ { new_id@ } else { current_id@ }),
        r.name == name,
        r.variants == body.variants,
        r.competitors == body.competitors,
        r.site_url == body.site_url,
{
    let renamed = !str_eq(current_id.as_str(), new_id.as_str());
    BrandUpdateResult {
        project_id: if renamed { new_id } else { current_id },
        name,
        variants: body.variants,
        competitors: body.competitors,
        site_url: body.site_url,
        restart_required: renamed,
    }
}

/// The question put to the model: the brand in quotes, its variants as an
/// alias hint when it has any, and the required answer shape.
pub open spec fn competitor_prompt_text(brand: Seq<char>, variants: Seq<Seq<char>>) -> Seq<char> {
    let hint = if variants.len() == 0 {
        Seq::<char>::empty()
    } else {
        " (also known as: "@ + join_with(variants, ", "@) + ")"@
    };
    "List the main competitors of the brand \""@ + brand + "\""@ + hint
        + ". Respond with ONLY a JSON array of 5 to 8 competitor brand names as strings, e.g. [\"Acme\", \"Globex\"]. No prose, no markdown, no code fences."@
}

/// Builds the competitor-suggestion prompt.
pub fn competitor_prompt(brand: &str, variants: &Vec<String>) -> (p: String)
    ensures
        p@ == competitor_prompt_text(brand@, strings_view(variants@)),
{
    let mut p: String = "List the main competitors of the brand \"".to_owned();
    let b = chars_of(brand);
    push_chars(&mut p, &b);
    let q = chars_of("\"");
    push_chars(&mut p, &q);
    if variants.len() > 0 {
        let open = chars_of(" (also known as: ");
        push_chars(&mut p, &open);
        let joined = join_strings(variants, ", ");
        let jc = chars_of(joined.as_str());
        push_chars(&mut p, &jc);
        let close = chars_of(")");
        push_chars(&mut p, &close);
    }
    let tail = chars_of(
        ". Respond with ONLY a JSON array of 5 to 8 competitor brand names as strings, e.g. [\"Acme\", \"Globex\"]. No prose, no markdown, no code fences.",
    );
    push_chars(&mut p, &tail);
    assert(p@ =~= competitor_prompt_text(brand@, strings_view(variants@)));
    p
}

// ---------------------------------------------------------------------------
// Reading the model's answer
// ---------------------------------------------------------------------------

/// The span from the first `[` to the last `]` of a model answer, when the
/// `]` comes after the `[`.
pub open spec fn array_span(s: Seq<char>) -> Option<Seq<char>> {
    match (first_index(s, '['), last_index(s, ']')) {
        (Some(a), Some(b)) => if b > a { Some(s.subrange(a, b + 1)) } else { None },
        _ => None,
    }
}

/// The JSON array text inside a model answer, tolerating prose or code
/// fences around it; `None` when there is no `[ … ]`.
pub fn json_array_span(text: &str) -> (r: Option<String>)
    ensures
        match array_span(text@) {
            Some(s) => r matches Some(x) && x@ == s,
            None => r is None,
        },
{
    let v = chars_of(text);
    match (find_first(&v, '['), find_last(&v, ']')) {
        (Some(a), Some(b)) => if b > a {
            let mut out: Vec<char> = Vec::new();
            let mut k: usize = a;
            assert(v@.subrange(a as int, a as int) =~= Seq::<char>::empty());
            while k <= b
                invariant
                    a <= k <= b + 1,
                    b < v.len(),
                    out@ == v@.subrange(a as int, k as int),
                decreases b + 1 - k,
            {
                out.push(v[k]);
                assert(v@.subrange(a as int, k + 1) =~= v@.subrange(a as int, k as int).push(v@[k as int]));
                k = k + 1;
            }
            Some(string_of(&out))
        } else {
            None
        },
        _ => None,
    }
}

/// The name a suggested entry carries: a string, or the string `name`
/// member of an object; trimmed.
pub open spec fn entry_name(v: JsonValue) -> Option<Seq<char>> {
    match v {
        JsonValue::Str(s) => Some(trim(s@)),
        JsonValue::Object(members) => match crate::json::first_member(members@, "name"@) {
            Some(i) => match members@[i].1 {
                JsonValue::Str(s) => Some(trim(s@)),
                _ => None,
            },
            None => None,
        },
        _ => None,
    }
}

/// The non-empty names of the entries, in order.
pub open spec fn entry_names(vs: Seq<JsonValue>) -> Seq<Seq<char>>
    decreases vs.len(),
{
    if vs.len() == 0 {
        Seq::empty()
    } else {
        let prev = entry_names(vs.drop_last());
        match entry_name(vs.last()) {
            Some(n) => if n.len() > 0 { prev.push(n) } else { prev },
            None => prev,
        }
    }
}

fn name_of_entry(v: &JsonValue) -> (r: Option<Vec<char>>)
    ensures
        match entry_name(*v) {
            Some(n) => r matches Some(x) && x@ == n,
            None => r is None,
        },
{
    match v {
        JsonValue::Str(s) => Some(trimmed(s.as_str())),
        JsonValue::Object(members) => {
            proof {
                reveal_strlit("name");
                crate::json::lemma_first_member(members@, "name"@);
            }
            match crate::json::find_member(members, "name") {
                Some(i) => match &members[i].1 {
                    JsonValue::Str(s) => Some(trimmed(s.as_str())),
                    _ => None,
                },
                None => None,
            }
        },
        _ => None,
    }
}

/// The competitor names in a parsed answer array: strings and objects'
/// `name` strings, trimmed, blanks dropped; an answer with none is refused.
pub fn competitor_names(values: &Vec<JsonValue>) -> (r: Result<Vec<String>, String>)
    ensures
        entry_names(values@).len() > 0 ==> (r matches Ok(ns) && strings_view(ns@) == entry_names(values@)),
        entry_names(values@).len() == 0 ==> (r matches Err(m) && m@ == "model returned an empty competitor list"@),
{
    let mut names: Vec<String> = Vec::new();
    let mut i: usize = 0;
    while i < values.len()
        invariant
            i <= values.len(),
            strings_view(names@) == entry_names(values@.subrange(0, i as int)),
        decreases values.len() - i,
    {
        assert(values@.subrange(0, i + 1).drop_last() =~= values@.subrange(0, i as int));
        match name_of_entry(&values[i]) {
            Some(n) => if n.len() > 0 {
                let ghost before = strings_view(names@);
                names.push(string_of(&n));
                assert(strings_view(names@) =~= before.push(n@));
            },
            None => {},
        }
        i = i + 1;
    }
    assert(values@.subrange(0, values.len() as int) =~= values@);
    if names.len() == 0 {
        return Err("model returned an empty competitor list".to_owned());
    }
    Ok(names)
}

/// Reads the competitor names from a model answer: the JSON array inside
/// it (400-style messages when there is none or it does not parse), then
/// the names as [`competitor_names`] reads them.
pub fn parse_competitor_names(text: &str) -> (r: Result<Vec<String>, String>)
    ensures
        match array_span(text@) {
            None => r matches Err(m) && m@ == "model response did not contain a JSON array"@,
            Some(span) => match json_array_values(span) {
                Err(e) => r matches Err(m) && m@ == "could not parse JSON array: "@ + e,
                Ok(vs) => if entry_names(vs).len() > 0 {
                    r matches Ok(ns) && strings_view(ns@) == entry_names(vs)
                } else {
                    r matches Err(m) && m@ == "model returned an empty competitor list"@
                },
            },
        },
{
    let span = match json_array_span(text) {
        Some(s) => s,
        None => return Err("model response did not contain a JSON array".to_owned()),
    };
    match parse_json_array(span.as_str()) {
        Err(e) => {
            proof {
                reveal_strlit("");
            }
            Err(concat3("could not parse JSON array: ", e.as_str(), ""))
        },
        Ok(values) => competitor_names(&values),
    }
}

} // verus!
