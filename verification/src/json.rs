//! JSON values as `serde_json` holds them: what a value is, one level
//! deep, and the functions of `serde_json` that this library reads and
//! builds values with.

use vstd::prelude::*;

verus! {

/// A JSON value of `serde_json`. Nothing of its inside is visible here: it
/// is read through the functions of this module only.
#[verifier::external_type_specification]
#[verifier::external_body]
pub struct ExValue(serde_json::Value);

/// The failure of `serde_json` to read or write JSON text.
#[verifier::external_type_specification]
#[verifier::external_body]
pub struct ExJsonError(serde_json::Error);

/// The map that `serde_json` holds the members of an object in.
#[verifier::external_type_specification]
#[verifier::external_body]
#[verifier::reject_recursive_types(K)]
#[verifier::reject_recursive_types(V)]
pub struct ExJsonMap<K, V>(serde_json::Map<K, V>);

/// What a JSON value is, one level deep: the variant of `serde_json::Value`
/// and what it holds. Of a number only what it is as `u64` is kept, where
/// it is a non-negative integer that fits; the elements of an array and
/// the members of an object are values again.
pub enum JsonView {
    Null,
    Bool(bool),
    Number(Option<u64>),
    Text(Seq<char>),
    Array(Seq<serde_json::Value>),
    Object(Map<Seq<char>, serde_json::Value>),
}

impl JsonView {
    /// The text of a string.
    pub open spec fn text(self) -> Option<Seq<char>> {
        match self {
            JsonView::Text(text) => Some(text),
            _ => None,
        }
    }

    /// The number as `u64`, of a non-negative integer that fits.
    pub open spec fn unsigned(self) -> Option<u64> {
        match self {
            JsonView::Number(unsigned) => unsigned,
            _ => None,
        }
    }

    /// The elements of an array.
    pub open spec fn elements(self) -> Option<Seq<serde_json::Value>> {
        match self {
            JsonView::Array(elements) => Some(elements),
            _ => None,
        }
    }

    /// The member called `key` of an object that has one.
    pub open spec fn member(self, key: Seq<char>) -> Option<serde_json::Value> {
        match self {
            JsonView::Object(members) => if members.contains_key(key) {
                Some(members[key])
            } else {
                None
            },
            _ => None,
        }
    }
}

/// What `value` is, one level deep.
pub uninterp spec fn json_view(value: serde_json::Value) -> JsonView;

/// Whether `serde_json` holds `a` and `b` to be equal.
pub uninterp spec fn json_same(a: serde_json::Value, b: serde_json::Value) -> bool;

/// The value that the bytes `content` are the JSON text of, if they are
/// the JSON text of one.
pub uninterp spec fn json_parsed(content: Seq<u8>) -> Option<serde_json::Value>;

/// The members that `object` holds, each under its name.
pub uninterp spec fn object_members(object: serde_json::Map<String, serde_json::Value>) -> Map<
    Seq<char>,
    serde_json::Value,
>;

/// The pretty-printed JSON text of the object that holds `members`, if the
/// object can be written.
pub uninterp spec fn json_pretty(members: Map<Seq<char>, serde_json::Value>) -> Option<Seq<char>>;

/// The text of `value`, if it is a string.
pub open spec fn json_text(value: serde_json::Value) -> Option<Seq<char>> {
    json_view(value).text()
}

/// The elements of `value`, if it is an array.
pub open spec fn json_elements(value: serde_json::Value) -> Option<Seq<serde_json::Value>> {
    json_view(value).elements()
}

/// The member called `key` of `value`, if it is an object that has one.
pub open spec fn json_lookup(value: serde_json::Value, key: Seq<char>) -> Option<
    serde_json::Value,
> {
    json_view(value).member(key)
}

/// What indexing `value` by `key` gives, one level deep: the member called
/// `key` where `value` is an object that has one, null otherwise.
pub open spec fn json_field(value: serde_json::Value, key: Seq<char>) -> JsonView {
    match json_lookup(value, key) {
        Some(found) => json_view(found),
        None => JsonView::Null,
    }
}

/// `value[key]` of `serde_json`: the member called `key` where `value` is
/// an object that has one, a null value otherwise. It never panics.
#[verifier::external_body]
pub(crate) fn member<'a>(value: &'a serde_json::Value, key: &str) -> (r: &'a serde_json::Value)
    ensures
        json_view(*r) == json_field(*value, key@),
        json_lookup(*value, key@) matches Some(found) ==> *r == found,
{
    &value[key]
}

/// `Value::get` with a string key: the member called `key` where `value`
/// is an object that has one, `None` otherwise.
#[verifier::external_body]
pub(crate) fn lookup<'a>(value: &'a serde_json::Value, key: &str) -> (r: Option<
    &'a serde_json::Value,
>)
    ensures
        r.is_some() == json_lookup(*value, key@).is_some(),
        r matches Some(found) ==> json_lookup(*value, key@) == Some(*found),
{
    value.get(key)
}

/// `serde_json::from_slice` for a `Value`: the value that the bytes are the
/// JSON text of, or the failure where they are not. Nesting beyond the
/// crate's depth limit is a failure, not a crash. The contract names the
/// value.
#[verifier::external_body]
pub(crate) fn parse_value(content: &[u8]) -> (r: Result<serde_json::Value, serde_json::Error>)
    ensures
        r.is_ok() == json_parsed(content@).is_some(),
        r matches Ok(value) ==> json_parsed(content@) == Some(value),
{
    serde_json::from_slice::<serde_json::Value>(content)
}

/// `Map::new` of `serde_json`: an object without members.
#[verifier::external_body]
pub(crate) fn new_object() -> (r: serde_json::Map<String, serde_json::Value>)
    ensures
        forall|name: Seq<char>| !object_members(r).contains_key(name),
{
    serde_json::Map::new()
}

/// `Map::insert` of `serde_json`: puts `value` under `name`, in place of
/// what stood there before.
#[verifier::external_body]
pub(crate) fn object_insert(
    object: &mut serde_json::Map<String, serde_json::Value>,
    name: String,
    value: serde_json::Value,
)
    ensures
        object_members(*final(object)) == object_members(*old(object)).insert(name@, value),
{
    object.insert(name, value);
}

/// `serde_json::to_string_pretty` of an object: its pretty-printed text,
/// with the members in the order of their names, or the failure to write
/// it. The contract names the text.
#[verifier::external_body]
pub(crate) fn pretty_text(object: &serde_json::Map<String, serde_json::Value>) -> (r: Result<
    String,
    serde_json::Error,
>)
    ensures
        r.is_ok() == json_pretty(object_members(*object)).is_some(),
        r matches Ok(text) ==> json_pretty(object_members(*object)) == Some(text@),
{
    serde_json::to_string_pretty(object)
}

/// The variant `Value::String`: a value that is the string `text`.
#[verifier::external_body]
pub(crate) fn text_value(text: &str) -> (r: serde_json::Value)
    ensures
        json_view(r) == JsonView::Text(text@),
{
    serde_json::Value::String(text.to_owned())
}

/// The variant `Value::Array`: a value that is the array of `elements`.
#[verifier::external_body]
pub(crate) fn array_value(elements: Vec<serde_json::Value>) -> (r: serde_json::Value)
    ensures
        json_view(r) == JsonView::Array(elements@),
{
    serde_json::Value::Array(elements)
}

/// `Value`'s own equality test. The contract names the result.
#[verifier::external_body]
pub(crate) fn same_value(a: &serde_json::Value, b: &serde_json::Value) -> (r: bool)
    ensures
        r == json_same(*a, *b),
{
    a == b
}

/// `Value::as_u64`: the number as `u64` where the value is a non-negative
/// integer that fits, `None` otherwise.
pub assume_specification[ serde_json::Value::as_u64 ](value: &serde_json::Value) -> (r: Option<
    u64,
>)
    ensures
        r == json_view(*value).unsigned(),
;

/// `Value::as_str`: the text where the value is a string, `None` otherwise.
pub assume_specification<'a>[ serde_json::Value::as_str ](value: &'a serde_json::Value) -> (r:
    Option<&'a str>)
    ensures
        r.is_some() == json_view(*value).text().is_some(),
        r matches Some(text) ==> json_view(*value).text() == Some(text@),
;

/// `Value::as_array`: the elements where the value is an array, `None`
/// otherwise.
pub assume_specification<'a>[ serde_json::Value::as_array ](value: &'a serde_json::Value) -> (r:
    Option<&'a Vec<serde_json::Value>>)
    ensures
        r.is_some() == json_view(*value).elements().is_some(),
        r matches Some(elements) ==> json_view(*value).elements() == Some(elements@),
;

/// `Value::is_null`: whether the value is the null value.
pub assume_specification[ serde_json::Value::is_null ](value: &serde_json::Value) -> (r: bool)
    ensures
        r == (json_view(*value) is Null),
;

/// `Value::is_object`: whether the value is an object.
pub assume_specification[ serde_json::Value::is_object ](value: &serde_json::Value) -> (r: bool)
    ensures
        r == (json_view(*value) is Object),
;

/// `Value`'s `clone`: a value equal to the one cloned in every part.
pub assume_specification[ <serde_json::Value as Clone>::clone ](value: &serde_json::Value) -> (r:
    serde_json::Value)
    ensures
        r == *value,
;

} // verus!
