//! Trusted access to the `serde_json` crate.
//!
//! Frames arrive as JSON text; decoding and tree navigation are done by
//! `serde_json`, whose `Value` type is opaque here.  Each accessor is a pure
//! function of its arguments, so its result is given a name: the names say
//! nothing about JSON itself, but they let a caller's contract state that
//! the same navigation, done in spec, yields the same pieces — which is what
//! ties a frame handler's contract to the write the frame denotes.

use vstd::prelude::*;

verus! {

/// The JSON tree type of the `serde_json` crate, taken as opaque.
#[verifier::external_type_specification]
#[verifier::external_body]
pub struct ExValue(serde_json::Value);

/// What decoding JSON text yields: a tree for well-formed text, else nothing.
pub uninterp spec fn jparse(text: Seq<char>) -> Option<serde_json::Value>;

/// The value an object holds under a string key, or nothing.
pub uninterp spec fn jfield(v: serde_json::Value, key: Seq<char>) -> Option<serde_json::Value>;

/// The element an array holds at an index, or nothing.
pub uninterp spec fn jitem(v: serde_json::Value, index: int) -> Option<serde_json::Value>;

/// The characters of a JSON string value, or nothing for any other kind.
pub uninterp spec fn jtext(v: serde_json::Value) -> Option<Seq<char>>;

/// The elements of a JSON array value, or nothing for any other kind.
pub uninterp spec fn jelems(v: serde_json::Value) -> Option<Seq<serde_json::Value>>;

/// Whether the value is a JSON array.
pub uninterp spec fn jis_array(v: serde_json::Value) -> bool;

/// Relies on `serde_json::from_str`: decodes JSON text deterministically, or
/// nothing for malformed text.
#[verifier::external_body]
pub fn json_parse(s: &str) -> (r: Option<serde_json::Value>)
    ensures
        r == jparse(s@),
{
    serde_json::from_str::<serde_json::Value>(s).ok()
}

/// Relies on `serde_json::Value::get` with a string key: the value under the
/// key of an object, or nothing; a pure function of the tree and the key.
#[verifier::external_body]
pub fn json_get<'a>(v: &'a serde_json::Value, key: &str) -> (r: Option<&'a serde_json::Value>)
    ensures
        (r is Some) == (jfield(*v, key@) is Some),
        r matches Some(x) ==> *x == jfield(*v, key@)->Some_0,
{
    v.get(key)
}

/// Relies on `serde_json::Value::get` with a numeric index: the element at
/// the index of an array, or nothing; a pure function of the tree and index.
#[verifier::external_body]
pub fn json_get_index(v: &serde_json::Value, index: usize) -> (r: Option<&serde_json::Value>)
    ensures
        (r is Some) == (jitem(*v, index as int) is Some),
        r matches Some(x) ==> *x == jitem(*v, index as int)->Some_0,
{
    v.get(index)
}

/// Relies on `serde_json::Value::as_str`: the string slice of a JSON string,
/// or nothing for any other kind of value.
#[verifier::external_body]
pub fn json_as_str<'a>(v: &'a serde_json::Value) -> (r: Option<&'a str>)
    ensures
        (r is Some) == (jtext(*v) is Some),
        r matches Some(s) ==> s@ == jtext(*v)->Some_0,
{
    v.as_str()
}

/// Relies on `serde_json::Value::as_array`: the elements of a JSON array, or
/// nothing for any other kind of value.
#[verifier::external_body]
pub fn json_as_array(v: &serde_json::Value) -> (r: Option<&Vec<serde_json::Value>>)
    ensures
        (r is Some) == (jelems(*v) is Some),
        r matches Some(a) ==> a@ == jelems(*v)->Some_0,
{
    v.as_array()
}

/// Relies on `serde_json::Value::is_array`.
#[verifier::external_body]
pub fn json_is_array(v: &serde_json::Value) -> (r: bool)
    ensures
        r == jis_array(*v),
{
    v.is_array()
}

/// The characters of the string an object holds under a key, when the key is
/// present and holds a string.
pub open spec fn jtext_of_field(v: serde_json::Value, key: Seq<char>) -> Option<Seq<char>> {
    match jfield(v, key) {
        Some(x) => jtext(x),
        None => None,
    }
}

/// The elements of the array a value holds at an index, when the index is
/// present and holds an array.
pub open spec fn jelems_at(v: serde_json::Value, index: int) -> Option<
    Seq<serde_json::Value>,
> {
    match jitem(v, index) {
        Some(x) => jelems(x),
        None => None,
    }
}

} // verus!
