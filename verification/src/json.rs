//! A JSON value as the handlers read it.

use vstd::prelude::*;

verus! {

/// A JSON document. Numbers keep their textual form; object members keep
/// their order.
#[derive(Debug)]
pub enum JsonValue {
    Null,
    Bool(bool),
    Number(String),
    Str(String),
    Array(Vec<JsonValue>),
    Object(Vec<(String, JsonValue)>),
}

impl JsonValue {
    /// Whether the value is a JSON object.
    pub fn is_object(&self) -> (r: bool)
        ensures
            r == (*self is Object),
    {
        match self {
            JsonValue::Object(_) => true,
            _ => false,
        }
    }
}


/// The object keys under which provider payloads carry message text, in the
/// order they are read.
pub open spec fn text_keys() -> Seq<Seq<char>> {
    seq![
        "text"@,
        "output_text"@,
        "response_text"@,
        "content"@,
        "message"@,
        "choices"@,
        "output"@,
        "messages"@,
    ]
}

/// The non-blank string leaves of a provider payload, trimmed, in reading
/// order: arrays item by item, objects by the keys of `text_keys` in that
/// order (the first member of each key), other values contribute nothing.
pub open spec fn text_fragments(v: JsonValue) -> Seq<Seq<char>>
    decreases v,
{
    match v {
        JsonValue::Str(s) => if crate::text::trim(s@).len() > 0 {
            seq![crate::text::trim(s@)]
        } else {
            Seq::empty()
        },
        JsonValue::Array(items) => list_fragments(items@),
        JsonValue::Object(members) => keyed_fragments(members@, text_keys()),
        _ => Seq::empty(),
    }
}

/// The fragments of each item, concatenated.
pub open spec fn list_fragments(items: Seq<JsonValue>) -> Seq<Seq<char>>
    decreases items,
{
    if items.len() == 0 {
        Seq::empty()
    } else {
        list_fragments(items.drop_last()) + text_fragments(items.last())
    }
}

/// The fragments of the members under each key of `keys`, concatenated.
pub open spec fn keyed_fragments(members: Seq<(String, JsonValue)>, keys: Seq<Seq<char>>) -> Seq<Seq<char>>
    decreases members, keys.len(),
{
    if keys.len() == 0 {
        Seq::empty()
    } else {
        keyed_fragments(members, keys.drop_last()) + member_fragments(members, keys.last())
    }
}

/// The fragments of the first member named `key`, if any.
pub open spec fn member_fragments(members: Seq<(String, JsonValue)>, key: Seq<char>) -> Seq<Seq<char>>
    decreases members, 0nat,
{
    if members.len() == 0 {
        Seq::empty()
    } else if members[0].0@ == key {
        text_fragments(members[0].1)
    } else {
        member_fragments(members.drop_first(), key)
    }
}


/// The index of the first member named `key`.
pub open spec fn first_member(members: Seq<(String, JsonValue)>, key: Seq<char>) -> Option<int>
    decreases members.len(),
{
    if members.len() == 0 {
        None
    } else if members[0].0@ == key {
        Some(0)
    } else {
        match first_member(members.drop_first(), key) {
            Some(i) => Some(i + 1),
            None => None,
        }
    }
}

pub proof fn lemma_first_member(members: Seq<(String, JsonValue)>, key: Seq<char>)
    ensures
        match first_member(members, key) {
            Some(i) => 0 <= i < members.len() && members[i].0@ == key
                && member_fragments(members, key) == text_fragments(members[i].1),
            None => member_fragments(members, key) == Seq::<Seq<char>>::empty(),
        },
    decreases members.len(),
{
    if members.len() > 0 && members[0].0@ != key {
        lemma_first_member(members.drop_first(), key);
    }
}

pub fn find_member(members: &Vec<(String, JsonValue)>, key: &str) -> (r: Option<usize>)
    ensures
        match r {
            Some(i) => first_member(members@, key@) == Some(i as int),
            None => first_member(members@, key@) is None,
        },
{
    let kv = crate::text::chars_of(key);
    let mut i: usize = 0;
    assert(members@.skip(0) =~= members@);
    while i < members.len()
        invariant
            i <= members.len(),
            kv@ == key@,
            first_member(members@, key@) == (match first_member(members@.skip(i as int), key@) {
                Some(j) => Some(j + i),
                None => None,
            }),
        decreases members.len() - i,
    {
        let mv = crate::text::chars_of(members[i].0.as_str());
        assert(members@.skip(i as int)[0] == members@[i as int]);
        if crate::text::chars_eq(&mv, &kv) {
            return Some(i);
        }
        assert(members@.skip(i as int).drop_first() =~= members@.skip(i + 1));
        i = i + 1;
    }
    None
}

/// Appends the trimmed, non-blank string leaves of `value` to `fragments`,
/// in reading order.
pub fn collect_text_fragments(value: &JsonValue, fragments: &mut Vec<String>)
    ensures
        crate::text::strings_view(final(fragments)@) == crate::text::strings_view(old(fragments)@) + text_fragments(*value),
    decreases value,
{
    let ghost start = crate::text::strings_view(fragments@);
    match value {
        JsonValue::Str(text) => {
            let t = crate::text::trimmed(text.as_str());
            if t.len() > 0 {
                fragments.push(crate::text::string_of(&t));
                assert(crate::text::strings_view(fragments@) =~= start + seq![t@]);
            } else {
                assert(crate::text::strings_view(fragments@) =~= start + Seq::<Seq<char>>::empty());
            }
        },
        JsonValue::Array(items) => {
            let mut i: usize = 0;
            assert(items@.subrange(0, 0) =~= Seq::<JsonValue>::empty());
            assert(crate::text::strings_view(fragments@) =~= start + list_fragments(items@.subrange(0, 0)));
            while i < items.len()
                invariant
                    i <= items.len(),
                    *value == JsonValue::Array(*items),
                    crate::text::strings_view(fragments@) == start + list_fragments(items@.subrange(0, i as int)),
                decreases items.len() - i,
            {
                assert(items@.subrange(0, i + 1).drop_last() =~= items@.subrange(0, i as int));
                proof {
                    assert(*items == (*value)->Array_0);
                    assert(decreases_to!(*value => (*value)->Array_0));
                    assert(decreases_to!(*items => items@));
                    assert(decreases_to!(items@ => items@[i as int]));
                    assert(decreases_to!(*value => items@[i as int]));
                }
                collect_text_fragments(&items[i], fragments);
                assert(start + list_fragments(items@.subrange(0, i + 1)) =~= start + list_fragments(items@.subrange(0, i as int)) + text_fragments(items@[i as int]));
                i = i + 1;
            }
            assert(items@.subrange(0, items.len() as int) =~= items@);
        },
        JsonValue::Object(members) => {
            let keys: Vec<&str> = vec![
                "text",
                "output_text",
                "response_text",
                "content",
                "message",
                "choices",
                "output",
                "messages",
            ];
            let ghost tk = text_keys();
            assert(tk.len() == 8);
            let mut k: usize = 0;
            assert(tk.subrange(0, 0).len() == 0);
            assert(crate::text::strings_view(fragments@) =~= start + keyed_fragments(members@, tk.subrange(0, 0)));
            while k < keys.len()
                invariant
                    k <= keys.len(),
                    keys.len() == 8,
                    *value == JsonValue::Object(*members),
                    tk == text_keys(),
                    forall|q: int| 0 <= q < 8 ==> (#[trigger] keys@[q])@ == tk[q],
                    crate::text::strings_view(fragments@) == start + keyed_fragments(members@, tk.subrange(0, k as int)),
                decreases keys.len() - k,
            {
                assert(tk.subrange(0, k + 1).drop_last() =~= tk.subrange(0, k as int));
                assert(tk.subrange(0, k + 1).last() == keys@[k as int]@);
                proof {
                    lemma_first_member(members@, keys@[k as int]@);
                }
                let before = fragments.len();
                match find_member(members, keys[k]) {
                    Some(idx) => {
                        proof {
                            assert(*members == (*value)->Object_0);
                            assert(decreases_to!(*value => (*value)->Object_0));
                            assert(decreases_to!(*members => members@));
                            assert(decreases_to!(members@ => members@[idx as int]));
                            assert(decreases_to!(members@[idx as int] => members@[idx as int].1));
                            assert(decreases_to!(*value => members@[idx as int].1));
                        }
                        collect_text_fragments(&members[idx].1, fragments);
                    },
                    None => {
                        assert(crate::text::strings_view(fragments@) =~= crate::text::strings_view(fragments@) + Seq::<Seq<char>>::empty());
                    },
                }
                assert(start + keyed_fragments(members@, tk.subrange(0, k + 1)) =~= start + keyed_fragments(members@, tk.subrange(0, k as int)) + member_fragments(members@, tk[k as int]));
                k = k + 1;
            }
            assert(tk.subrange(0, 8) =~= tk);
        },
        _ => {
            assert(crate::text::strings_view(fragments@) =~= start + Seq::<Seq<char>>::empty());
        },
    }
}

// ---------------------------------------------------------------------------
// Reading a JSON array from text
// ---------------------------------------------------------------------------

#[verifier::external_type_specification]
#[verifier::external_body]
pub struct ExSerdeJsonValue(serde_json::Value);

/// What `serde_json::from_str::<Vec<serde_json::Value>>` reads from `s`:
/// the array's elements, or the `Display` text of the parse error.
pub uninterp spec fn json_array_values(s: Seq<char>) -> Result<Seq<JsonValue>, Seq<char>>;

/// A `serde_json::Value` as a [`JsonValue`]: numbers by their text, object
/// members in the order the map yields them.
#[verifier::external_body]
fn from_serde(v: &serde_json::Value) -> JsonValue {
    match v {
        serde_json::Value::Null => JsonValue::Null,
        serde_json::Value::Bool(b) => JsonValue::Bool(*b),
        serde_json::Value::Number(n) => JsonValue::Number(n.to_string()),
        serde_json::Value::String(t) => JsonValue::Str(t.clone()),
        serde_json::Value::Array(a) => JsonValue::Array(a.iter().map(from_serde).collect()),
        serde_json::Value::Object(m) => JsonValue::Object(m.iter().map(|(k, x)| (k.clone(), from_serde(x))).collect()),
    }
}

/// `serde_json::from_str::<Vec<serde_json::Value>>(s)`: the elements of the
/// JSON array `s`, or the text of the parse error.
#[verifier::external_body]
pub(crate) fn parse_json_array(s: &str) -> (r: Result<Vec<JsonValue>, String>)
    ensures
        match json_array_values(s@) {
            Ok(v) => r matches Ok(w) && w@ == v,
            Err(m) => r matches Err(e) && e@ == m,
        },
{
    match serde_json::from_str::<Vec<serde_json::Value>>(s) {
        Ok(vs) => Ok(vs.iter().map(from_serde).collect()),
        Err(e) => Err(e.to_string()),
    }
}

} // verus!
