use vstd::prelude::*;

verus! {

/// A parsed JSON document, as plain values: what the library's decoders
/// read. A number that fits `i64` carries its value; any other number (too
/// large, or fractional) is `OtherNumber`, and no decoder reads one. An
/// object's fields come in the order serde_json hands them out (sorted by
/// key), each key once.
pub enum Json {
    Null,
    Bool(bool),
    Int(i64),
    OtherNumber,
    Text(String),
    Array(Vec<Json>),
    Object(Vec<(String, Json)>),
}

#[verifier::external_type_specification]
#[verifier::external_body]
pub struct ExValue(serde_json::Value);

/// The JSON document the string parses to, converted into `Json`, or `None`
/// when the string is not one valid JSON document. A function of the text
/// alone; named here rather than written out.
pub uninterp spec fn json_doc_of(s: Seq<char>) -> Option<Json>;

/// Relies on `serde_json::Value`'s variants: converts a parsed document into
/// the library's `Json`, variant for variant, moving the values; a number
/// becomes `Int` exactly when `Number::as_i64` carries its value. Nothing can
/// be stated here of the opaque input; `parse_json` below ties the
/// composition with `serde_json::from_str` to its name.
#[verifier::external_body]
fn value_to_json(v: serde_json::Value) -> Json {
    match v {
        serde_json::Value::Null => Json::Null,
        serde_json::Value::Bool(b) => Json::Bool(b),
        serde_json::Value::Number(n) => match n.as_i64() {
            Some(i) => Json::Int(i),
            None => Json::OtherNumber,
        },
        serde_json::Value::String(s) => Json::Text(s),
        serde_json::Value::Array(a) => Json::Array(a.into_iter().map(value_to_json).collect()),
        serde_json::Value::Object(m) => Json::Object(
            m.into_iter().map(|(k, x)| (k, value_to_json(x))).collect(),
        ),
    }
}

/// Relies on `serde_json::from_str` for `Value`: it succeeds exactly on a
/// valid JSON document and is deterministic in the text, and the conversion
/// above is deterministic in the document (the object iteration order is the
/// map's, sorted by key); the composition is the named `json_doc_of`.
#[verifier::external_body]
pub(crate) fn parse_json(s: &str) -> (r: Option<Json>)
    ensures
        r == json_doc_of(s@),
{
    serde_json::from_str::<serde_json::Value>(s).ok().map(value_to_json)
}

/// The value under `key` among an object's fields, scanning from position
/// `k`: the first pair carrying the key.
pub open spec fn spec_lookup_from(
    fields: Seq<(String, Json)>,
    key: Seq<char>,
    k: int,
) -> Option<Json>
    decreases fields.len() - k,
{
    if k < 0 || k >= fields.len() {
        None
    } else if fields[k].0@ == key {
        Some(fields[k].1)
    } else {
        spec_lookup_from(fields, key, k + 1)
    }
}

/// The value under `key` among an object's fields, when the key is there.
pub open spec fn spec_lookup(fields: Seq<(String, Json)>, key: Seq<char>) -> Option<Json> {
    spec_lookup_from(fields, key, 0)
}

/// The string under `key`, when the key is there and holds one.
pub open spec fn str_field(fields: Seq<(String, Json)>, key: Seq<char>) -> Option<Seq<char>> {
    match spec_lookup(fields, key) {
        Some(Json::Text(s)) => Some(s@),
        _ => None,
    }
}

/// Looks `key` up among an object's fields.
pub fn lookup<'a>(fields: &'a Vec<(String, Json)>, key: &String) -> (r: Option<&'a Json>)
    ensures
        r is Some <==> spec_lookup(fields@, key@) is Some,
        r is Some ==> *r->0 == spec_lookup(fields@, key@)->0,
{
    let mut k: usize = 0;
    while k < fields.len()
        invariant
            k <= fields@.len(),
            spec_lookup(fields@, key@) == spec_lookup_from(fields@, key@, k as int),
        decreases fields@.len() - k,
    {
        if fields[k].0 == *key {
            return Some(&fields[k].1);
        }
        k = k + 1;
    }
    None
}

} // verus!
