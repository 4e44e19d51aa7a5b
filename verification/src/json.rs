//! JSON documents, read and written by `serde_json`.
//!
//! Verus sees nothing inside a `serde_json::Value`. `json_of` names the
//! document that a value holds, as a mathematical tree, and the functions
//! below say over that tree what each call into `serde_json` returns. None of
//! these statements is proved: they are what the rest of the library assumes
//! of `serde_json`, built with its default features (objects backed by a
//! `BTreeMap`).

use crate::list::texts;
use vstd::prelude::*;

verus! {

/// `serde_json::Value`, carried as it is.
#[verifier::external_type_specification]
#[verifier::external_body]
pub struct ExValue(serde_json::Value);

/// `serde_json::Map`, carried as it is.
#[verifier::external_type_specification]
#[verifier::external_body]
#[verifier::reject_recursive_types(K)]
#[verifier::reject_recursive_types(V)]
pub struct ExMap<K, V>(serde_json::Map<K, V>);

/// `serde_json::Error`, carried as it is.
#[verifier::external_type_specification]
#[verifier::external_body]
pub struct ExError(serde_json::Error);

/// The members of a JSON object, each under its key.
pub type Members = Map<Seq<char>, Json>;

/// A JSON document as a tree. A number is kept as the text that prints it;
/// an object is a map, so no key is held twice and the keys have no order of
/// their own.
pub enum Json {
    Null,
    Bool(bool),
    Number(Seq<char>),
    Text(Seq<char>),
    Array(Seq<Json>),
    Object(Members),
}

/// The document that a `serde_json::Value` holds.
pub uninterp spec fn json_of(value: serde_json::Value) -> Json;

/// The members that a `serde_json::Map` holds, each under its key.
pub uninterp spec fn members_of(map: serde_json::Map<String, serde_json::Value>) -> Members;

/// The document that `serde_json::from_slice` reads from `text`, or `None`
/// where it rejects `text`.
pub uninterp spec fn parsed(text: Seq<u8>) -> Option<Json>;

/// The bytes that `serde_json::to_vec` writes for a document, or `None` where
/// it fails on the document.
pub uninterp spec fn printed(document: Json) -> Option<Seq<u8>>;

/// Whether the text `a` comes before the text `b` in the order of `String`:
/// at the first place where they differ `a` has the lesser character, or `a`
/// ends where `b` goes on.
pub open spec fn text_before(a: Seq<char>, b: Seq<char>) -> bool
    decreases a.len(),
{
    if b.len() == 0 {
        false
    } else if a.len() == 0 {
        true
    } else if a[0] != b[0] {
        a[0] < b[0]
    } else {
        text_before(a.skip(1), b.skip(1))
    }
}

/// Whether each of `names` comes before all that follow it.
pub open spec fn ascending(names: Seq<Seq<char>>) -> bool {
    forall|i: int, j: int|
        0 <= i < j < names.len() ==> text_before(#[trigger] names[i], #[trigger] names[j])
}

/// No text comes before itself.
pub proof fn lemma_text_before_irreflexive(a: Seq<char>)
    ensures
        !text_before(a, a),
    decreases a.len(),
{
    if a.len() > 0 {
        lemma_text_before_irreflexive(a.skip(1));
    }
}

/// Ascending names hold no name twice.
pub proof fn lemma_ascending_no_duplicates(names: Seq<Seq<char>>)
    requires
        ascending(names),
    ensures
        names.no_duplicates(),
{
    assert forall|i: int, j: int|
        0 <= i < names.len() && 0 <= j < names.len() && i != j implies names[i] != names[j] by {
        lemma_text_before_irreflexive(names[i]);
        if i < j {
            assert(text_before(names[i], names[j]));
        } else {
            assert(text_before(names[j], names[i]));
        }
    }
}

/// The documents that a sequence of values holds, in the same order.
pub open spec fn documents(values: Seq<serde_json::Value>) -> Seq<Json> {
    values.map_values(|value: serde_json::Value| json_of(value))
}

/// `serde_json::from_slice` at the type `serde_json::Value`: reads `text` as
/// one JSON document. Assumed: whether it succeeds, and the document that the
/// value then holds, depend on the bytes of `text` alone.
#[verifier::external_body]
pub(crate) fn parse_value(text: &[u8]) -> (read: Result<serde_json::Value, serde_json::Error>)
    ensures
        read matches Ok(value) ==> parsed(text@) == Some(json_of(value)),
        read is Err ==> parsed(text@) is None,
{
    serde_json::from_slice::<serde_json::Value>(text)
}

/// `serde_json::to_vec` at the type `serde_json::Value`. Assumed: whether it
/// succeeds, and the bytes that it then returns, depend on the document
/// alone. Nothing is assumed of the documents on which it succeeds.
#[verifier::external_body]
pub(crate) fn print_value(value: &serde_json::Value) -> (written: Result<
    Vec<u8>,
    serde_json::Error,
>)
    ensures
        written matches Ok(bytes) ==> printed(json_of(*value)) == Some(bytes@),
        written is Err ==> printed(json_of(*value)) is None,
{
    serde_json::to_vec(value)
}

/// `serde_json::Value::as_object`: the members of an object, `None` for any
/// other value.
#[verifier::external_body]
pub(crate) fn as_object(value: &serde_json::Value) -> (object: Option<
    &serde_json::Map<String, serde_json::Value>,
>)
    ensures
        object matches Some(map) ==> json_of(*value) == Json::Object(members_of(*map)),
        object is None ==> !(json_of(*value) is Object),
{
    value.as_object()
}

/// `serde_json::Value::as_array`: the items of an array, `None` for any other
/// value.
#[verifier::external_body]
pub(crate) fn as_array(value: &serde_json::Value) -> (array: Option<&Vec<serde_json::Value>>)
    ensures
        array matches Some(items) ==> json_of(*value) == Json::Array(documents(items@)),
        array is None ==> !(json_of(*value) is Array),
{
    value.as_array()
}

/// `serde_json::Value::as_str`: the text of a string, `None` for any other
/// value.
#[verifier::external_body]
pub(crate) fn as_str(value: &serde_json::Value) -> (text: Option<&str>)
    ensures
        text matches Some(s) ==> json_of(*value) == Json::Text(s@),
        text is None ==> !(json_of(*value) is Text),
{
    value.as_str()
}

/// `serde_json::Map::get`: the member under `key`, `None` where the map holds
/// no such key.
#[verifier::external_body]
pub(crate) fn member<'a>(
    map: &'a serde_json::Map<String, serde_json::Value>,
    key: &str,
) -> (found: Option<&'a serde_json::Value>)
    ensures
        found matches Some(value) ==> members_of(*map).contains_key(key@) && members_of(
            *map,
        )[key@] == json_of(*value),
        found is None ==> !members_of(*map).contains_key(key@),
{
    map.get(key)
}

/// `serde_json::Map::keys`, collected: the keys of the map, in the order in
/// which the `BTreeMap` behind the map holds them, which is ascending.
#[verifier::external_body]
pub(crate) fn member_names(map: &serde_json::Map<String, serde_json::Value>) -> (keys: Vec<String>)
    ensures
        ascending(texts(keys@)),
        forall|key: Seq<char>| texts(keys@).contains(key) <==> members_of(*map).contains_key(key),
{
    map.keys().cloned().collect()
}

/// `serde_json::Value::from` on a `String`: the string with that text.
#[verifier::external_body]
pub(crate) fn text_value(text: String) -> (value: serde_json::Value)
    ensures
        json_of(value) == Json::Text(text@),
{
    serde_json::Value::from(text)
}

/// `serde_json::Value::from` on a `Vec` of values: the array of these items,
/// in their order.
#[verifier::external_body]
pub(crate) fn array_value(items: Vec<serde_json::Value>) -> (value: serde_json::Value)
    ensures
        json_of(value) == Json::Array(documents(items@)),
{
    serde_json::Value::from(items)
}

/// `serde_json::Value::from` on a `serde_json::Map`: the object with these
/// members.
#[verifier::external_body]
pub(crate) fn object_value(map: serde_json::Map<String, serde_json::Value>) -> (value:
    serde_json::Value)
    ensures
        json_of(value) == Json::Object(members_of(map)),
{
    serde_json::Value::from(map)
}

/// `serde_json::Map::new`: a map without members.
#[verifier::external_body]
pub(crate) fn no_members() -> (fresh: serde_json::Map<String, serde_json::Value>)
    ensures
        members_of(fresh) == Members::empty(),
{
    serde_json::Map::new()
}

/// `serde_json::Map::insert`: puts `value` under `key`, in place of the member
/// that the map held under that key, if any.
#[verifier::external_body]
pub(crate) fn put_member(
    map: &mut serde_json::Map<String, serde_json::Value>,
    key: String,
    value: serde_json::Value,
)
    ensures
        members_of(*final(map)) == members_of(*old(map)).insert(key@, json_of(value)),
{
    map.insert(key, value);
}

} // verus!
