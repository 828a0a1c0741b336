//! The JSON reading and writing that the protocol engine delegates to
//! serde_json. Values cross this boundary as plain text: an object as the
//! list of its members, each member's value as its raw JSON text.
use vstd::prelude::*;

verus! {

/// The members of the JSON object written in `s`, each with the raw text of
/// its value, or `None` where `s` is not a JSON object.
pub uninterp spec fn object_members(s: Seq<char>) -> Option<Seq<(Seq<char>, Seq<char>)>>;

/// The unsigned integer written in `s`, or `None` where `s` is not one.
pub uninterp spec fn unsigned_of(s: Seq<char>) -> Option<u64>;

/// The string that the JSON string literal `s` denotes, or `None`.
pub uninterp spec fn string_of(s: Seq<char>) -> Option<Seq<char>>;

/// `Some(None)` for a JSON `null`, `Some(Some(t))` for a JSON string
/// denoting `t`, and `None` for anything else.
pub uninterp spec fn nullable_string_of(s: Seq<char>) -> Option<Option<Seq<char>>>;

/// The raw texts of the elements of the JSON array written in `s`, or `None`.
pub uninterp spec fn elements_of(s: Seq<char>) -> Option<Seq<Seq<char>>>;

/// Whether `s` holds exactly one JSON value.
pub uninterp spec fn is_json(s: Seq<char>) -> bool;

/// The JSON string literal that denotes `s`.
pub uninterp spec fn quoted(s: Seq<char>) -> Seq<char>;

/// Relies on `serde_json::from_str` into a `BTreeMap` of `RawValue`s: it
/// reads a JSON object and keeps each member's value as its exact text.
#[verifier::external_body]
pub(crate) fn parse_object(s: &str) -> (r: Option<Vec<(String, String)>>)
    ensures
        r is Some == object_members(s@) is Some,
        r is Some ==> r->0@.len() == object_members(s@)->0.len() && forall|i: int|
            0 <= i < r->0@.len() ==> (#[trigger] r->0@[i]).0@ == object_members(s@)->0[i].0
                && r->0@[i].1@ == object_members(s@)->0[i].1,
{
    let parsed = serde_json::from_str::<
        std::collections::BTreeMap<String, Box<serde_json::value::RawValue>>,
    >(s);
    match parsed {
        Ok(m) => Some(m.into_iter().map(|(k, v)| (k, v.get().to_owned())).collect()),
        Err(_) => None,
    }
}

/// Relies on `serde_json::from_str::<u64>`.
#[verifier::external_body]
pub(crate) fn parse_unsigned(s: &str) -> (r: Option<u64>)
    ensures
        r == unsigned_of(s@),
{
    serde_json::from_str::<u64>(s).ok()
}

/// Relies on `serde_json::from_str::<String>`.
#[verifier::external_body]
pub(crate) fn parse_string(s: &str) -> (r: Option<String>)
    ensures
        r is Some == string_of(s@) is Some,
        r is Some ==> r->0@ == string_of(s@)->0,
{
    serde_json::from_str::<String>(s).ok()
}

/// Relies on `serde_json::from_str::<Option<String>>`: `null` reads as `None`.
#[verifier::external_body]
pub(crate) fn parse_nullable_string(s: &str) -> (r: Option<Option<String>>)
    ensures
        r is Some == nullable_string_of(s@) is Some,
        r is Some ==> (r->0 is Some == nullable_string_of(s@)->0 is Some),
        r is Some && r->0 is Some ==> r->0->0@ == nullable_string_of(s@)->0->0,
{
    serde_json::from_str::<Option<String>>(s).ok()
}

/// Relies on `serde_json::from_str` into a `Vec` of `RawValue`s: it reads a
/// JSON array and keeps each element as its exact text.
#[verifier::external_body]
pub(crate) fn parse_elements(s: &str) -> (r: Option<Vec<String>>)
    ensures
        r is Some == elements_of(s@) is Some,
        r is Some ==> r->0@.len() == elements_of(s@)->0.len() && forall|i: int|
            0 <= i < r->0@.len() ==> (#[trigger] r->0@[i])@ == elements_of(s@)->0[i],
{
    match serde_json::from_str::<Vec<Box<serde_json::value::RawValue>>>(s) {
        Ok(v) => Some(v.into_iter().map(|e| e.get().to_owned()).collect()),
        Err(_) => None,
    }
}

/// Relies on `serde_json::from_str::<serde::de::IgnoredAny>`, which accepts
/// exactly the texts that hold one JSON value.
#[verifier::external_body]
pub(crate) fn check_json(s: &str) -> (r: bool)
    ensures
        r == is_json(s@),
{
    serde_json::from_str::<serde::de::IgnoredAny>(s).is_ok()
}

/// Relies on `serde_json::to_string` of a `str`, which writes the escaped
/// string literal into a `Vec` and so cannot fail.
#[verifier::external_body]
pub(crate) fn quote(s: &str) -> (r: String)
    ensures
        r@ == quoted(s@),
{
    serde_json::to_string(s).unwrap_or_default()
}

} // verus!
