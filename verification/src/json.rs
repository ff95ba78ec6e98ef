//! What `serde_json` makes of the JSON texts that the harness channel and
//! its client exchange. The parser's and the writer's results are named,
//! not spelled out; the decisions taken on them are the library's own.

use vstd::prelude::*;

verus! {

/// Name for what `serde_json::from_str::<serde_json::Value>` makes of
/// `text`: `Ok(Some(keys))` for an object with these keys, `Ok(None)` for
/// any other JSON value, and `Err` with the parser's message otherwise.
pub uninterp spec fn json_parse_outcome(text: Seq<char>) -> Result<Option<Set<Seq<char>>>, Seq<char>>;

/// The keys of a parsed object as a set of texts.
pub open spec fn key_set(keys: Seq<String>) -> Set<Seq<char>> {
    keys.map_values(|k: String| k@).to_set()
}

/// A parse outcome as handed out, by its view.
pub open spec fn outcome_view(r: Result<Option<Vec<String>>, String>) -> Result<Option<Set<Seq<char>>>, Seq<char>> {
    match r {
        Ok(Some(keys)) => Ok(Some(key_set(keys@))),
        Ok(None) => Ok(None),
        Err(e) => Err(e@),
    }
}

/// Wraps `serde_json::from_str::<serde_json::Value>`, handing out the keys
/// of an object and the text of an error. Trusted: the outcome is the named
/// one.
#[verifier::external_body]
pub(crate) fn parse_json(text: &str) -> (r: Result<Option<Vec<String>>, String>)
    ensures
        outcome_view(r) == json_parse_outcome(text@),
{
    match serde_json::from_str::<serde_json::Value>(text) {
        Ok(serde_json::Value::Object(map)) => Ok(Some(map.keys().cloned().collect())),
        Ok(_) => Ok(None),
        Err(e) => Err(e.to_string()),
    }
}

/// Name for the unsigned integer that `Value::get(key)` and
/// `Value::as_u64` find in the value parsed from `text` (`None` when the
/// text does not parse, the key is absent or its value is no such integer).
pub uninterp spec fn json_u64_field(text: Seq<char>, key: Seq<char>) -> Option<u64>;

/// Wraps `serde_json::from_str`, `Value::get` and `Value::as_u64`.
/// Trusted: the result is the named field.
#[verifier::external_body]
pub(crate) fn json_u64_at(text: &str, key: &str) -> (r: Option<u64>)
    ensures
        r == json_u64_field(text@, key@),
{
    serde_json::from_str::<serde_json::Value>(text).ok().and_then(|v| v.get(key).and_then(serde_json::Value::as_u64))
}

/// Name for the boolean that `Value::get(key)` and `Value::as_bool` find in
/// the value parsed from `text`.
pub uninterp spec fn json_bool_field(text: Seq<char>, key: Seq<char>) -> Option<bool>;

/// Wraps `serde_json::from_str`, `Value::get` and `Value::as_bool`.
/// Trusted: the result is the named field.
#[verifier::external_body]
pub(crate) fn json_bool_at(text: &str, key: &str) -> (r: Option<bool>)
    ensures
        r == json_bool_field(text@, key@),
{
    serde_json::from_str::<serde_json::Value>(text).ok().and_then(|v| v.get(key).and_then(serde_json::Value::as_bool))
}

/// Name for the string that `Value::get(key)` and `Value::as_str` find in
/// the value parsed from `text`.
pub uninterp spec fn json_str_field(text: Seq<char>, key: Seq<char>) -> Option<Seq<char>>;

pub open spec fn opt_view(o: Option<String>) -> Option<Seq<char>> {
    match o {
        Some(s) => Some(s@),
        None => None,
    }
}

/// Wraps `serde_json::from_str`, `Value::get` and `Value::as_str`.
/// Trusted: the result is the named field.
#[verifier::external_body]
pub(crate) fn json_str_at(text: &str, key: &str) -> (r: Option<String>)
    ensures
        opt_view(r) == json_str_field(text@, key@),
{
    serde_json::from_str::<serde_json::Value>(text).ok().and_then(|v| v.get(key).and_then(|s| s.as_str().map(String::from)))
}

/// The parse outcome of an object with the keys `keys`.
pub open spec fn parsed_object(keys: Set<Seq<char>>) -> Result<Option<Set<Seq<char>>>, Seq<char>> {
    Ok(Some(keys))
}

/// Writes an empty object with `Value::to_string`. Trusted: the text parses
/// back to an object without keys, so it has no fields.
#[verifier::external_body]
pub(crate) fn json_empty_object() -> (r: String)
    ensures
        json_parse_outcome(r@) == parsed_object(Set::<Seq<char>>::empty()),
        forall|k: Seq<char>| #[trigger] json_u64_field(r@, k) is None,
        forall|k: Seq<char>| #[trigger] json_str_field(r@, k) is None,
{
    serde_json::Value::Object(serde_json::Map::new()).to_string()
}

/// Name for the compact text that `serde_json` writes for the object parsed
/// from `object` after `Map::insert(key, value)` with an unsigned integer.
pub uninterp spec fn json_insert_u64_text(object: Seq<char>, key: Seq<char>, value: u64) -> Option<Seq<char>>;

/// Parses `object` with `serde_json::from_str`, inserts `key` with the
/// integer `value` by `Map::insert` and writes it with `Value::to_string`;
/// `None` when `object` is no JSON object. Trusted: the text is the named
/// one; it parses back to an object with the old keys and `key`, whose
/// `key` field is `value` and whose other fields are the old ones.
#[verifier::external_body]
pub(crate) fn json_object_with_u64(object: &str, key: &str, value: u64) -> (r: Option<String>)
    ensures
        opt_view(r) == json_insert_u64_text(object@, key@, value),
        r is Some <==> json_parse_outcome(object@) matches Ok(Some(_)),
        r matches Some(t) ==> json_parse_outcome(object@) matches Ok(Some(keys)) && json_parse_outcome(t@)
            == parsed_object(keys.insert(key@)),
        r matches Some(t) ==> json_u64_field(t@, key@) == Some(value) && json_str_field(t@, key@) is None,
        r matches Some(t) ==> forall|k: Seq<char>|
            k != key@ ==> #[trigger] json_u64_field(t@, k) == json_u64_field(object@, k),
        r matches Some(t) ==> forall|k: Seq<char>|
            k != key@ ==> #[trigger] json_str_field(t@, k) == json_str_field(object@, k),
{
    match serde_json::from_str::<serde_json::Value>(object) {
        Ok(serde_json::Value::Object(mut map)) => {
            map.insert(String::from(key), serde_json::Value::from(value));
            Some(serde_json::Value::Object(map).to_string())
        },
        _ => None,
    }
}

/// Name for the compact text that `serde_json` writes for the object parsed
/// from `object` after `Map::insert(key, value)` with a string.
pub uninterp spec fn json_insert_str_text(object: Seq<char>, key: Seq<char>, value: Seq<char>) -> Option<Seq<char>>;

/// As `json_object_with_u64`, with the string `value`.
#[verifier::external_body]
pub(crate) fn json_object_with_str(object: &str, key: &str, value: &str) -> (r: Option<String>)
    ensures
        opt_view(r) == json_insert_str_text(object@, key@, value@),
        r is Some <==> json_parse_outcome(object@) matches Ok(Some(_)),
        r matches Some(t) ==> json_parse_outcome(object@) matches Ok(Some(keys)) && json_parse_outcome(t@)
            == parsed_object(keys.insert(key@)),
        r matches Some(t) ==> json_str_field(t@, key@) == Some(value@) && json_u64_field(t@, key@) is None,
        r matches Some(t) ==> forall|k: Seq<char>|
            k != key@ ==> #[trigger] json_u64_field(t@, k) == json_u64_field(object@, k),
        r matches Some(t) ==> forall|k: Seq<char>|
            k != key@ ==> #[trigger] json_str_field(t@, k) == json_str_field(object@, k),
{
    match serde_json::from_str::<serde_json::Value>(object) {
        Ok(serde_json::Value::Object(mut map)) => {
            map.insert(String::from(key), serde_json::Value::from(value));
            Some(serde_json::Value::Object(map).to_string())
        },
        _ => None,
    }
}

/// Name for the compact text that `serde_json` writes for the object parsed
/// from `object` after `Map::insert(key, value)` with the value parsed from
/// `value`.
pub uninterp spec fn json_insert_json_text(object: Seq<char>, key: Seq<char>, value: Seq<char>) -> Option<Seq<char>>;

/// Where a scan of JSON text stands: the open arrays and objects, the most
/// open at once so far, and whether it is inside a string (after a
/// backslash).
pub struct NestScan {
    pub depth: int,
    pub deepest: int,
    pub in_string: bool,
    pub escaped: bool,
}

pub open spec fn nest_step(st: NestScan, c: char) -> NestScan {
    if st.in_string {
        if st.escaped {
            NestScan { escaped: false, ..st }
        } else if c == '\\' {
            NestScan { escaped: true, ..st }
        } else if c == '"' {
            NestScan { in_string: false, ..st }
        } else {
            st
        }
    } else if c == '"' {
        NestScan { in_string: true, ..st }
    } else if c == '[' || c == '{' {
        NestScan { depth: st.depth + 1, deepest: if st.depth + 1 > st.deepest { st.depth + 1 } else { st.deepest }, ..st }
    } else if c == ']' || c == '}' {
        NestScan { depth: st.depth - 1, ..st }
    } else {
        st
    }
}

pub open spec fn nest_scan(s: Seq<char>) -> NestScan
    decreases s.len(),
{
    if s.len() == 0 {
        NestScan { depth: 0, deepest: 0, in_string: false, escaped: false }
    } else {
        nest_step(nest_scan(s.drop_last()), s.last())
    }
}

/// How deeply arrays and objects nest in the JSON text `s` (brackets inside
/// strings do not count). `serde_json` parses at most 127 levels.
pub open spec fn json_nesting(s: Seq<char>) -> int {
    nest_scan(s).deepest
}

/// As `json_object_with_u64`, with the value parsed from the JSON text
/// `value`; `None` also when `value` does not parse. The written object
/// nests one level deeper than the value, so it parses back (with the old
/// keys plus `key` and the other fields kept) only while the value nests at
/// most 126 levels: the parser refuses 128.
#[verifier::external_body]
pub(crate) fn json_object_with_json(object: &str, key: &str, value: &str) -> (r: Option<String>)
    ensures
        opt_view(r) == json_insert_json_text(object@, key@, value@),
        r is Some <==> (json_parse_outcome(object@) matches Ok(Some(_)) && json_parse_outcome(value@) is Ok),
        json_nesting(value@) <= 126 ==> (r matches Some(t) ==> json_parse_outcome(object@) matches Ok(Some(keys))
            && json_parse_outcome(t@) == parsed_object(keys.insert(key@))),
        json_nesting(value@) <= 126 ==> (r matches Some(t) ==> forall|k: Seq<char>|
            k != key@ ==> #[trigger] json_u64_field(t@, k) == json_u64_field(object@, k)),
        json_nesting(value@) <= 126 ==> (r matches Some(t) ==> forall|k: Seq<char>|
            k != key@ ==> #[trigger] json_str_field(t@, k) == json_str_field(object@, k)),
{
    let inserted = serde_json::from_str::<serde_json::Value>(value);
    match (serde_json::from_str::<serde_json::Value>(object), inserted) {
        (Ok(serde_json::Value::Object(mut map)), Ok(v)) => {
            map.insert(String::from(key), v);
            Some(serde_json::Value::Object(map).to_string())
        },
        _ => None,
    }
}

} // verus!
