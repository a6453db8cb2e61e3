//! A plain model of parsed JSON documents.
//!
//! Parsing itself is done by `serde_json`; the parsed value is handed over as
//! a [`JsonValue`] so that the config logic can be stated and proved over it.

use vstd::prelude::*;

use crate::text::str_chars;

verus! {

/// A parsed JSON value. Numbers are kept only as a kind: nothing in this
/// project reads their value.
#[derive(Debug)]
pub enum JsonValue {
    Null,
    Bool(bool),
    Number,
    Str(String),
    Array(Vec<JsonValue>),
    /// Members in the order the parser's map yields them; keys are distinct.
    Object(Vec<(String, JsonValue)>),
}

#[verifier::external_type_specification]
#[verifier::external_body]
pub struct ExSerdeJsonValue(serde_json::Value);

/// Name for what `serde_json::from_str::<serde_json::Value>` makes of a
/// text: the parsed document, or the text of the parse error.
pub uninterp spec fn spec_parse_json(text: Seq<char>) -> Result<JsonValue, Seq<char>>;

/// Trusted wrapper for `serde_json::from_str::<serde_json::Value>`.
///
/// Claims only that the outcome is the named function of the text: the same
/// text always gives the same document or the same error message.
#[verifier::external_body]
pub(crate) fn parse_json(text: &str) -> (r: Result<JsonValue, String>)
    ensures
        match r {
            Ok(v) => spec_parse_json(text@) == Ok::<JsonValue, Seq<char>>(v),
            Err(m) => spec_parse_json(text@) == Err::<JsonValue, Seq<char>>(m@),
        },
{
    match serde_json::from_str::<serde_json::Value>(text) {
        Ok(v) => Ok(json_from_serde(v)),
        Err(e) => Err(e.to_string()),
    }
}

/// Moves a `serde_json::Value` into the [`JsonValue`] model, variant by
/// variant (numbers lose their value).
#[verifier::external_body]
fn json_from_serde(v: serde_json::Value) -> JsonValue {
    match v {
        serde_json::Value::Null => JsonValue::Null,
        serde_json::Value::Bool(b) => JsonValue::Bool(b),
        serde_json::Value::Number(_) => JsonValue::Number,
        serde_json::Value::String(s) => JsonValue::Str(s),
        serde_json::Value::Array(a) => JsonValue::Array(a.into_iter().map(json_from_serde).collect()),
        serde_json::Value::Object(m) => JsonValue::Object(
            m.into_iter().map(|(k, v)| (k, json_from_serde(v))).collect(),
        ),
    }
}

/// The views of a sequence of string pairs.
pub open spec fn pair_views(v: Seq<(String, String)>) -> Seq<(Seq<char>, Seq<char>)> {
    v.map_values(|p: (String, String)| (p.0@, p.1@))
}

/// Name for what `serde_json::to_string_pretty` prints for the JSON object
/// whose members are the given keys with string values, inserted in order.
pub uninterp spec fn spec_pretty_string_object(members: Seq<(Seq<char>, Seq<char>)>) -> Seq<char>;

/// The text begins with the opening brace of an object.
pub open spec fn begins_with_brace(t: Seq<char>) -> bool {
    t.len() > 0 && t[0] == '{'
}

/// No key occurs twice.
pub open spec fn distinct_keys(pairs: Seq<(Seq<char>, Seq<char>)>) -> bool {
    forall|i: int, j: int| 0 <= i < j < pairs.len() ==> #[trigger] pairs[i].0 != #[trigger] pairs[j].0
}

/// The members `m` of a parsed object are the keys of `pairs`, in order, each
/// with its value as a string.
pub open spec fn string_members(m: Seq<(String, JsonValue)>, pairs: Seq<(Seq<char>, Seq<char>)>) -> bool {
    &&& m.len() == pairs.len()
    &&& forall|i: int| 0 <= i < m.len() ==> (#[trigger] m[i]).0@ == pairs[i].0 && (m[i].1 matches JsonValue::Str(
        v,
    ) && v@ == pairs[i].1)
}

/// `serde_json::from_str` parses the text `t` into an object whose members
/// are the keys of `pairs`, in order, each with its value as a string.
pub open spec fn parses_to_string_object(t: Seq<char>, pairs: Seq<(Seq<char>, Seq<char>)>) -> bool {
    spec_parse_json(t) matches Ok(JsonValue::Object(m)) && string_members(m@, pairs)
}

/// Trusted wrapper for `serde_json::to_string_pretty` on a JSON object of
/// string members, built from `members` in order (this crate's serde_json
/// keeps insertion order).
///
/// Claims that the text is the named function of the members; that it begins
/// with the `{` of the object (the formatter's `begin_object`); and that, the
/// keys being distinct, `serde_json::from_str` parses the text back into an
/// object with the same members in the same order, as JSON text of the object
/// that was printed. Printing a `serde_json::Value` does not fail; the error
/// arm is never taken.
#[verifier::external_body]
pub(crate) fn pretty_string_object(members: &Vec<(String, String)>) -> (r: String)
    ensures
        r@ == spec_pretty_string_object(pair_views(members@)),
        begins_with_brace(r@),
        distinct_keys(pair_views(members@)) ==> parses_to_string_object(r@, pair_views(members@)),
{
    let object: serde_json::Map<String, serde_json::Value> = members
        .iter()
        .map(|(k, v)| (k.clone(), serde_json::Value::String(v.clone())))
        .collect();
    match serde_json::to_string_pretty(&serde_json::Value::Object(object)) {
        Ok(text) => text,
        Err(e) => e.to_string(),
    }
}

/// The value of the first member named `key`.
pub open spec fn lookup(members: Seq<(String, JsonValue)>, key: Seq<char>) -> Option<JsonValue>
    decreases members.len(),
{
    if members.len() == 0 {
        None
    } else if members[0].0@ == key {
        Some(members[0].1)
    } else {
        lookup(members.drop_first(), key)
    }
}

/// Index of the first member named `key`.
pub open spec fn lookup_index(members: Seq<(String, JsonValue)>, key: Seq<char>, i: int) -> Option<int>
    decreases members.len() - i,
{
    if i < 0 || i >= members.len() {
        None
    } else if members[i].0@ == key {
        Some(i)
    } else {
        lookup_index(members, key, i + 1)
    }
}

proof fn lemma_lookup_index(members: Seq<(String, JsonValue)>, key: Seq<char>, i: int)
    requires
        0 <= i <= members.len(),
    ensures
        lookup(members.skip(i), key) == match lookup_index(members, key, i) {
            Some(k) => Some(members[k].1),
            None => None::<JsonValue>,
        },
        lookup_index(members, key, i) matches Some(k) ==> i <= k < members.len(),
    decreases members.len() - i,
{
    if i < members.len() {
        lemma_lookup_index(members, key, i + 1);
        assert(members.skip(i).drop_first() =~= members.skip(i + 1));
        assert(members.skip(i)[0] == members[i]);
    }
}

/// `a == b` for string slices.
pub fn str_eq(a: &str, b: &str) -> (r: bool)
    ensures
        r == (a@ == b@),
{
    let x = str_chars(a);
    let y = str_chars(b);
    if x.len() != y.len() {
        return false;
    }
    let mut i: usize = 0;
    while i < x.len()
        invariant
            x@ == a@,
            y@ == b@,
            x@.len() == y@.len(),
            i <= x@.len(),
            forall|j: int| 0 <= j < i ==> x@[j] == y@[j],
        decreases x@.len() - i,
    {
        if x[i] != y[i] {
            assert(x@[i as int] != y@[i as int]);
            return false;
        }
        i = i + 1;
    }
    assert(x@ =~= y@);
    true
}

/// Position of the first member named `key`, if any.
pub fn find_member(members: &Vec<(String, JsonValue)>, key: &str) -> (r: Option<usize>)
    ensures
        match r {
            Some(k) => k < members@.len() && lookup(members@, key@) == Some(members@[k as int].1),
            None => lookup(members@, key@) is None,
        },
{
    let mut i: usize = 0;
    proof {
        assert(members@.skip(0) =~= members@);
    }
    while i < members.len()
        invariant
            i <= members@.len(),
            lookup_index(members@, key@, 0) == lookup_index(members@, key@, i as int),
        decreases members@.len() - i,
    {
        if str_eq(members[i].0.as_str(), key) {
            proof {
                assert(lookup_index(members@, key@, i as int) == Some(i as int));
                lemma_lookup_index(members@, key@, 0);
                assert(members@.skip(0) =~= members@);
            }
            return Some(i);
        }
        i = i + 1;
    }
    proof {
        lemma_lookup_index(members@, key@, 0);
        assert(members@.skip(0) =~= members@);
    }
    None
}

} // verus!
