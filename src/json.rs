//! Trusted declarations for the JSON values that payloads are carried in.
//!
//! Payloads stay opaque: the library only builds and reads the envelope
//! object around them.
use vstd::prelude::*;

verus! {

#[verifier::external_type_specification]
#[verifier::external_body]
pub struct ExValue(serde_json::Value);

#[verifier::external_type_specification]
#[verifier::external_body]
#[verifier::reject_recursive_types(K)]
#[verifier::reject_recursive_types(V)]
pub struct ExObject<K, V>(serde_json::Map<K, V>);

#[verifier::external_type_specification]
#[verifier::external_body]
pub struct ExError(serde_json::Error);

/// A JSON object with string keys, as serde_json holds it.
pub type Object = serde_json::Map<String, serde_json::Value>;

/// The entries of a JSON object, key by key.
pub uninterp spec fn entries(m: Object) -> Map<Seq<char>, serde_json::Value>;

/// The unsigned integer that a JSON value holds, if it holds one.
pub uninterp spec fn u64_in(v: serde_json::Value) -> Option<u64>;

/// The text that a JSON value holds, if it is a string.
pub uninterp spec fn str_in(v: serde_json::Value) -> Option<Seq<char>>;

/// The compact JSON text of an object with these entries.
pub uninterp spec fn object_text(f: Map<Seq<char>, serde_json::Value>) -> Seq<char>;

/// Relies on `serde_json::Map::new`: a map with no entries.
#[verifier::external_body]
pub fn new_object() -> (r: Object)
    ensures
        entries(r).dom() =~= Set::<Seq<char>>::empty(),
{
    serde_json::Map::new()
}

/// Relies on `serde_json::Map::insert`: the key now maps to the value, other
/// entries stay.
#[verifier::external_body]
pub fn put(m: &mut Object, k: &str, v: serde_json::Value)
    ensures
        entries(*final(m)) == entries(*old(m)).insert(k@, v),
{
    m.insert(k.to_string(), v);
}

/// Relies on `serde_json::Map::remove`: the value under the key, if any,
/// is handed out and the entry leaves the map.
#[verifier::external_body]
pub fn take(m: &mut Object, k: &str) -> (r: Option<serde_json::Value>)
    ensures
        entries(*final(m)) == entries(*old(m)).remove(k@),
        r == (if entries(*old(m)).contains_key(k@) {
            Some(entries(*old(m))[k@])
        } else {
            None
        }),
{
    m.remove(k)
}

/// Relies on `serde_json::Value::from(u64)`: a number that reads back as the
/// same unsigned integer.
#[verifier::external_body]
pub fn number_value(n: u64) -> (r: serde_json::Value)
    ensures
        u64_in(r) == Some(n),
{
    serde_json::Value::from(n)
}

/// Relies on `serde_json::Value::as_u64`.
#[verifier::external_body]
pub fn as_u64(v: &serde_json::Value) -> (r: Option<u64>)
    ensures
        r == u64_in(*v),
{
    v.as_u64()
}

/// Relies on `serde_json::Value::from(&str)`: a string value holding the
/// same text.
#[verifier::external_body]
pub fn string_value(s: &str) -> (r: serde_json::Value)
    ensures
        str_in(r) == Some(s@),
{
    serde_json::Value::from(s)
}

/// Relies on `serde_json::Value::as_str`, copying the text out.
#[verifier::external_body]
pub fn as_string(v: &serde_json::Value) -> (r: Option<String>)
    ensures
        match r {
            Some(s) => str_in(*v) == Some(s@),
            None => str_in(*v) is None,
        },
{
    v.as_str().map(|s| s.to_string())
}

/// Relies on `serde_json::to_string`: the compact text of the object. On a
/// map with string keys and JSON values the serializer raises no error, and
/// writing into memory cannot fail.
#[verifier::external_body]
pub fn to_text(m: &Object) -> (r: Result<String, serde_json::Error>)
    ensures
        r is Ok,
        r matches Ok(s) ==> s@ == object_text(entries(*m)),
{
    serde_json::to_string(m)
}

/// The entries of the JSON object that a text holds, if it holds one.
pub uninterp spec fn parsed_entries(s: Seq<char>) -> Option<Map<Seq<char>, serde_json::Value>>;

/// Relies on `serde_json::from_str`, reading one JSON object; any other
/// text is an error. The outcome depends on the text alone.
#[verifier::external_body]
pub fn parse_object(s: &str) -> (r: Result<Object, serde_json::Error>)
    ensures
        match r {
            Ok(m) => parsed_entries(s@) == Some(entries(m)),
            Err(_) => parsed_entries(s@) is None,
        },
{
    serde_json::from_str(s)
}

} // verus!
