//! The JSON objects that carry recipe step arguments, held as
//! `serde_json::Map<String, Value>` and reached through a few trusted calls.
//!
//! What the crate reads of an object is named `json_entries`: for each key,
//! its string value, its unsigned integer value, or that it holds something
//! else.  Its compact text is named `json_text` and the result of parsing a
//! text `json_parse`.

use vstd::prelude::*;

verus! {

#[verifier::external_type_specification]
#[verifier::external_body]
#[verifier::reject_recursive_types(K)]
#[verifier::reject_recursive_types(V)]
pub struct ExJsonMap<K, V>(serde_json::Map<K, V>);

#[verifier::external_type_specification]
#[verifier::external_body]
pub struct ExJsonValue(serde_json::Value);

#[verifier::external_type_specification]
#[verifier::external_body]
pub struct ExJsonError(serde_json::Error);

/// A JSON object.
pub type JsonObject = serde_json::Map<String, serde_json::Value>;

/// A serialisation result.
pub type JsonText = Result<String, serde_json::Error>;

/// A parse result.
pub type JsonParsed = Result<JsonObject, serde_json::Error>;

/// What one entry of a JSON object holds, as far as this crate reads it.
pub enum JsonEntry {
    /// A JSON string.
    Text(Seq<char>),
    /// A JSON number that is a `u64`.
    Unsigned(u64),
    /// A JSON array: for each item, its text where it is a string; and for
    /// each item, its entries where it is an object.
    List(Seq<Option<Seq<char>>>, Seq<Option<Map<Seq<char>, JsonEntry>>>),
    /// A JSON boolean.
    Bool(bool),
    /// A JSON object: for each key, its text where it holds a string.
    Object(Map<Seq<char>, Option<Seq<char>>>),
    /// Anything else.
    Other,
}

/// The entries of a JSON object, by key.
pub uninterp spec fn json_entries(m: JsonObject) -> Map<Seq<char>, JsonEntry>;

/// The compact text that `serde_json::to_string` writes for an object.
pub uninterp spec fn json_text(m: JsonObject) -> Seq<char>;

/// The indented text that `serde_json::to_string_pretty` writes for an
/// object.
pub uninterp spec fn json_pretty_text(m: JsonObject) -> Seq<char>;

/// The entries of the object that `serde_json::from_str` reads from a
/// text, or `None` where the text is not a JSON object.
pub uninterp spec fn json_parse(s: Seq<char>) -> Option<Map<Seq<char>, JsonEntry>>;

/// An object without entries.
pub open spec fn no_entries() -> Map<Seq<char>, JsonEntry> {
    Map::empty()
}

/// `Map::new`: an empty object.
#[verifier::external_body]
pub(crate) fn json_object_new() -> (m: JsonObject)
    ensures
        json_entries(m) == no_entries(),
{
    serde_json::Map::new()
}

/// `Map::insert` of a JSON string: the key now holds that string; a value
/// the key held before is replaced.
#[verifier::external_body]
pub(crate) fn json_insert_text(m: &mut JsonObject, key: String, value: String)
    ensures
        json_entries(*final(m)) == json_entries(*old(m)).insert(key@, JsonEntry::Text(value@)),
{
    m.insert(key, serde_json::Value::String(value));
}

/// `Map::insert` of a JSON number made from a `u64`.
#[verifier::external_body]
pub(crate) fn json_insert_unsigned(m: &mut JsonObject, key: String, value: u64)
    ensures
        json_entries(*final(m)) == json_entries(*old(m)).insert(key@, JsonEntry::Unsigned(value)),
{
    m.insert(key, serde_json::Value::Number(serde_json::Number::from(value)));
}

/// `Map::contains_key`.
#[verifier::external_body]
pub(crate) fn json_contains_key(m: &JsonObject, key: &str) -> (r: bool)
    ensures
        r == json_entries(*m).dom().contains(key@),
{
    m.contains_key(key)
}

/// `Map::get` followed by `Value::as_str`: the string a key holds.
#[verifier::external_body]
pub(crate) fn json_get_text(m: &JsonObject, key: &str) -> (r: Option<String>)
    ensures
        match r {
            Some(s) => json_entries(*m).dom().contains(key@) && json_entries(*m)[key@] == JsonEntry::Text(s@),
            None => !(json_entries(*m).dom().contains(key@) && json_entries(*m)[key@] is Text),
        },
{
    match m.get(key) {
        Some(serde_json::Value::String(s)) => Some(s.clone()),
        _ => None,
    }
}

/// `Map::get` followed by `Value::as_u64`: the unsigned number a key holds.
#[verifier::external_body]
pub(crate) fn json_get_unsigned(m: &JsonObject, key: &str) -> (r: Option<u64>)
    ensures
        match r {
            Some(n) => json_entries(*m).dom().contains(key@) && json_entries(*m)[key@] == JsonEntry::Unsigned(n),
            None => !(json_entries(*m).dom().contains(key@) && json_entries(*m)[key@] is Unsigned),
        },
{
    match m.get(key) {
        Some(v) => v.as_u64(),
        None => None,
    }
}

/// The texts of a list of optional strings.
pub open spec fn item_views(v: Seq<Option<String>>) -> Seq<Option<Seq<char>>> {
    v.map_values(|o: Option<String>| match o {
        Some(s) => Some(s@),
        None => None,
    })
}

/// `Map::get` followed by `Value::as_array`, each item read with
/// `Value::as_str`: the items of the array a key holds.
#[verifier::external_body]
pub(crate) fn json_get_list(m: &JsonObject, key: &str) -> (r: Option<Vec<Option<String>>>)
    ensures
        match r {
            Some(v) => json_entries(*m).dom().contains(key@) && json_entries(*m)[key@] is List
                && json_entries(*m)[key@]->List_0 == item_views(v@),
            None => !(json_entries(*m).dom().contains(key@) && json_entries(*m)[key@] is List),
        },
{
    match m.get(key) {
        Some(serde_json::Value::Array(a)) => Some(a.iter().map(|x| x.as_str().map(|s| s.to_string())).collect()),
        _ => None,
    }
}

/// Whether the objects read from an array are the array's object items:
/// one per item, an object exactly where the item is one, with its entries.
pub open spec fn objects_match(v: Seq<Option<JsonObject>>, items: Seq<Option<Map<Seq<char>, JsonEntry>>>) -> bool {
    &&& v.len() == items.len()
    &&& forall|i: int| 0 <= i < v.len() ==> match (#[trigger] v[i], items[i]) {
        (Some(o), Some(e)) => json_entries(o) == e,
        (None, None) => true,
        _ => false,
    }
}

/// `Map::get` followed by `Value::as_array`, each item read with
/// `Value::as_object` and cloned: the items of the array a key holds, an
/// object where the item is one.
#[verifier::external_body]
pub(crate) fn json_get_object_list(m: &JsonObject, key: &str) -> (r: Option<Vec<Option<JsonObject>>>)
    ensures
        match r {
            Some(v) => json_entries(*m).dom().contains(key@) && json_entries(*m)[key@] is List
                && objects_match(v@, json_entries(*m)[key@]->List_1),
            None => !(json_entries(*m).dom().contains(key@) && json_entries(*m)[key@] is List),
        },
{
    match m.get(key) {
        Some(serde_json::Value::Array(a)) => Some(a.iter().map(|x| x.as_object().cloned()).collect()),
        _ => None,
    }
}

/// `Map::get` followed by `Value::as_bool`: the boolean a key holds.
#[verifier::external_body]
pub(crate) fn json_get_bool(m: &JsonObject, key: &str) -> (r: Option<bool>)
    ensures
        match r {
            Some(b) => json_entries(*m).dom().contains(key@) && json_entries(*m)[key@] == JsonEntry::Bool(b),
            None => !(json_entries(*m).dom().contains(key@) && json_entries(*m)[key@] is Bool),
        },
{
    match m.get(key) {
        Some(v) => v.as_bool(),
        None => None,
    }
}

/// `Map::get` followed by `Value::as_object`, each entry read with
/// `Value::as_str`: the entries of the object a key holds, each key once.
#[verifier::external_body]
pub(crate) fn json_get_object_items(m: &JsonObject, key: &str) -> (r: Option<Vec<(String, Option<String>)>>)
    ensures
        match r {
            Some(v) => json_entries(*m).dom().contains(key@) && json_entries(*m)[key@] is Object && {
                let o = json_entries(*m)[key@]->Object_0;
                &&& forall|i: int| 0 <= i < v@.len() ==> #[trigger] o.dom().contains(v@[i].0@)
                    && o[v@[i].0@] == (match v@[i].1 { Some(s) => Some(s@), None => None::<Seq<char>> })
                &&& forall|k: Seq<char>| #[trigger] o.dom().contains(k) ==> exists|i: int| 0 <= i < v@.len() && v@[i].0@ == k
                &&& forall|i: int, j: int| 0 <= i < j < v@.len() ==> v@[i].0@ != v@[j].0@
            },
            None => !(json_entries(*m).dom().contains(key@) && json_entries(*m)[key@] is Object),
        },
{
    match m.get(key) {
        Some(serde_json::Value::Object(o)) => Some(o.iter().map(|(k, v)| (k.clone(), v.as_str().map(|s| s.to_string()))).collect()),
        _ => None,
    }
}

/// `serde_json::to_string` of an object; serialising a map with string
/// keys does not fail.  Nothing is said of reading the text back: the
/// writer nests to any depth, while `from_str` refuses objects nested more
/// than 128 levels deep.
#[verifier::external_body]
pub(crate) fn json_to_string(m: &JsonObject) -> (r: JsonText)
    ensures
        r is Ok,
        r->Ok_0@ == json_text(*m),
{
    serde_json::to_string(m)
}

/// `serde_json::to_string_pretty` of an object; serialising a map with
/// string keys does not fail.
#[verifier::external_body]
pub(crate) fn json_to_string_pretty(m: &JsonObject) -> (r: JsonText)
    ensures
        r is Ok,
        r->Ok_0@ == json_pretty_text(*m),
{
    serde_json::to_string_pretty(m)
}

/// `serde_json::from_str` into an object: succeeds exactly on the texts
/// `json_parse` accepts, with the entries it names.
#[verifier::external_body]
pub(crate) fn json_from_str(s: &str) -> (r: JsonParsed)
    ensures
        r is Ok <==> json_parse(s@) is Some,
        (r matches Ok(m) ==> json_parse(s@) == Some(json_entries(m))),
{
    serde_json::from_str(s)
}

/// The error's message, as `Display` writes it.
#[verifier::external_body]
pub(crate) fn json_error_message(e: &serde_json::Error) -> String {
    e.to_string()
}

/// Cloning an object keeps its entries and its text.
pub assume_specification[ <serde_json::Map<String, serde_json::Value> as Clone>::clone ](
    m: &serde_json::Map<String, serde_json::Value>,
) -> (r: serde_json::Map<String, serde_json::Value>)
    ensures
        json_entries(r) == json_entries(*m),
        json_text(r) == json_text(*m),
;

} // verus!
