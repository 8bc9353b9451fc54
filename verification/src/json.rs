//! JSON objects read through `serde_json`: a payload is parsed once, and the fields of its
//! top-level object are handed out as plain values (their string, boolean and unsigned
//! integer readings), each with the value itself carried along unread.
use vstd::prelude::*;
use serde_json::Value;
use crate::text::str_eq;

verus! {

#[verifier::external_type_specification]
#[verifier::external_body]
pub struct ExJsonValue(serde_json::Value);

/// A field of a JSON object: its key, its readings as a string, a boolean and an unsigned
/// integer (each present only when the value has that form), and the value itself.
pub struct JsonField {
    pub key: String,
    pub text: Option<String>,
    pub flag: Option<bool>,
    pub count: Option<u64>,
    pub value: Value,
}

/// What the logic reads of a JSON field.
pub struct JsonFieldSpec {
    pub key: Seq<char>,
    pub text: Option<Seq<char>>,
    pub flag: Option<bool>,
    pub count: Option<u64>,
}

/// The characters of an optional string.
pub open spec fn opt_chars(o: Option<String>) -> Option<Seq<char>> {
    match o {
        Some(s) => Some(s@),
        None => None,
    }
}

impl View for JsonField {
    type V = JsonFieldSpec;

    open spec fn view(&self) -> JsonFieldSpec {
        JsonFieldSpec { key: self.key@, text: opt_chars(self.text), flag: self.flag, count: self.count }
    }
}

/// The views of a list of fields.
pub open spec fn field_views(fields: Seq<JsonField>) -> Seq<JsonFieldSpec> {
    fields.map_values(|f: JsonField| f@)
}

/// The fields of the top-level JSON object that `serde_json` parses from `bytes`, in the
/// order of its map; `None` when the bytes are not JSON or the document is not an object.
pub uninterp spec fn json_object_fields(bytes: Seq<u8>) -> Option<Seq<JsonFieldSpec>>;

/// Calls `serde_json::from_slice::<Value>` and, when the document is an object, hands out its
/// fields in the map's order, reading each value with `Value::as_str`, `Value::as_bool` and
/// `Value::as_u64`. The result is named `json_object_fields`; the carried values are not
/// described.
#[verifier::external_body]
pub(crate) fn parse_json_object(data: &[u8]) -> (r: Option<Vec<JsonField>>)
    ensures
        match r {
            Some(v) => json_object_fields(data@) == Some(field_views(v@)),
            None => json_object_fields(data@) is None,
        },
{
    match serde_json::from_slice::<Value>(data) {
        Ok(Value::Object(map)) => Some(map.into_iter().map(|(key, value)| JsonField {
            key,
            text: value.as_str().map(|s| s.to_string()),
            flag: value.as_bool(),
            count: value.as_u64(),
            value,
        }).collect()),
        _ => None,
    }
}

/// The first field named `key` at or after position `i`.
pub open spec fn field_from(fields: Seq<JsonFieldSpec>, key: Seq<char>, i: int) -> Option<JsonFieldSpec>
    decreases fields.len() - i,
{
    if i < 0 || i >= fields.len() {
        None
    } else if fields[i].key == key {
        Some(fields[i])
    } else {
        field_from(fields, key, i + 1)
    }
}

/// The field named `key` (the first one, should the key repeat).
pub open spec fn field(fields: Seq<JsonFieldSpec>, key: Seq<char>) -> Option<JsonFieldSpec> {
    field_from(fields, key, 0)
}

/// The string reading of the field `key` of a parsed object.
pub open spec fn str_of(fields: Seq<JsonFieldSpec>, key: Seq<char>) -> Option<Seq<char>> {
    match field(fields, key) {
        Some(f) => f.text,
        None => None,
    }
}

/// The boolean reading of the field `key` of a parsed object.
pub open spec fn bool_of(fields: Seq<JsonFieldSpec>, key: Seq<char>) -> Option<bool> {
    match field(fields, key) {
        Some(f) => f.flag,
        None => None,
    }
}

/// The unsigned integer reading of the field `key` of a parsed object.
pub open spec fn u64_of(fields: Seq<JsonFieldSpec>, key: Seq<char>) -> Option<u64> {
    match field(fields, key) {
        Some(f) => f.count,
        None => None,
    }
}

/// A field found from position `i` bears the key looked for.
pub proof fn lemma_field_from_key(fields: Seq<JsonFieldSpec>, key: Seq<char>, i: int)
    ensures
        field_from(fields, key, i) matches Some(f) ==> f.key == key,
    decreases fields.len() - i,
{
    if 0 <= i < fields.len() && fields[i].key != key {
        lemma_field_from_key(fields, key, i + 1);
    }
}

/// Position of the field named `key` (the first one), if any.
pub fn find_field(fields: &Vec<JsonField>, key: &str) -> (r: Option<usize>)
    ensures
        match r {
            Some(i) => i < fields@.len() && field(field_views(fields@), key@) == Some(fields@[i as int]@),
            None => field(field_views(fields@), key@) is None,
        },
{
    let ghost views = field_views(fields@);
    let mut i: usize = 0;
    while i < fields.len()
        invariant
            i <= fields@.len(),
            views == field_views(fields@),
            views.len() == fields@.len(),
            field(views, key@) == field_from(views, key@, i as int),
        decreases fields.len() - i,
    {
        assert(views[i as int] == fields@[i as int]@);
        if str_eq(fields[i].key.as_str(), key) {
            return Some(i);
        }
        i = i + 1;
    }
    None
}

/// The string reading of the field `key`.
pub fn str_field(fields: &Vec<JsonField>, key: &str) -> (r: Option<String>)
    ensures
        opt_chars(r) == str_of(field_views(fields@), key@),
{
    match find_field(fields, key) {
        Some(i) => match &fields[i].text {
            Some(t) => Some(t.clone()),
            None => None,
        },
        None => None,
    }
}

/// The boolean reading of the field `key`.
pub fn bool_field(fields: &Vec<JsonField>, key: &str) -> (r: Option<bool>)
    ensures
        r == bool_of(field_views(fields@), key@),
{
    match find_field(fields, key) {
        Some(i) => fields[i].flag,
        None => None,
    }
}

/// The unsigned integer reading of the field `key`.
pub fn u64_field(fields: &Vec<JsonField>, key: &str) -> (r: Option<u64>)
    ensures
        r == u64_of(field_views(fields@), key@),
{
    match find_field(fields, key) {
        Some(i) => fields[i].count,
        None => None,
    }
}

} // verus!
