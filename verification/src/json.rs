//! JSON values, as `serde_json` holds them.
//!
//! Values are built and read by `serde_json` itself. Each function here
//! that does so says, in terms of [`JsonView`], what the value then holds.

use crate::text;
use crate::text::Text;
use vstd::prelude::*;

verus! {

/// What a JSON value holds.
#[verifier::ext_equal]
pub enum JsonView {
    Null,
    Bool(bool),
    Integer(int),
    /// A number that is no integer, by the bits it is stored in.
    Fraction(u64),
    Text(Text),
    Array(Seq<JsonView>),
    Object(Map<Text, JsonView>),
}

/// `serde_json::Value`.
#[verifier::external_type_specification]
#[verifier::external_body]
pub struct ExValue(serde_json::Value);

/// `serde_json::Map`.
#[verifier::external_type_specification]
#[verifier::external_body]
#[verifier::reject_recursive_types(K)]
#[verifier::reject_recursive_types(V)]
pub struct ExObject<K, V>(serde_json::Map<K, V>);

/// What a value holds.
pub uninterp spec fn held(value: serde_json::Value) -> JsonView;

/// What an object holds: a value under each of its keys.
pub uninterp spec fn members(object: serde_json::Map<String, serde_json::Value>) -> Map<
    Text,
    JsonView,
>;

/// An object without members.
pub open spec fn no_members() -> Map<Text, JsonView> {
    Map::empty()
}

/// What a list of values holds.
pub open spec fn all_held(values: Seq<serde_json::Value>) -> Seq<JsonView> {
    Seq::new(values.len(), |i: int| held(values[i]))
}

/// An array of texts.
pub open spec fn text_array(texts: Seq<Text>) -> JsonView {
    JsonView::Array(Seq::new(texts.len(), |i: int| JsonView::Text(texts[i])))
}

/// What a value holds, where there is one.
pub open spec fn opt_held(value: Option<serde_json::Value>) -> Option<JsonView> {
    match value {
        Some(value) => Some(held(value)),
        None => None,
    }
}

/// What a value holds, where there is one.
pub open spec fn opt_ref_held(value: Option<&serde_json::Value>) -> Option<JsonView> {
    match value {
        Some(value) => Some(held(*value)),
        None => None,
    }
}

/// What a list of values holds, where there is one.
pub open spec fn opt_items_held(values: Option<&Vec<serde_json::Value>>) -> Option<
    Seq<JsonView>,
> {
    match values {
        Some(values) => Some(all_held(values@)),
        None => None,
    }
}

/// The member of a key, where the value is an object that has one.
pub open spec fn member_of(value: JsonView, key: Text) -> Option<JsonView> {
    match value {
        JsonView::Object(members) => if members.contains_key(key) {
            Some(members[key])
        } else {
            None
        },
        _ => None,
    }
}

/// The values of an array.
pub open spec fn items_of(value: JsonView) -> Option<Seq<JsonView>> {
    match value {
        JsonView::Array(values) => Some(values),
        _ => None,
    }
}

/// The text that a value is.
pub open spec fn text_in(value: JsonView) -> Option<Text> {
    match value {
        JsonView::Text(text) => Some(text),
        _ => None,
    }
}

/// `serde_json::Map::new`: an object without members.
#[verifier::external_body]
pub(crate) fn new_object() -> (r: serde_json::Map<String, serde_json::Value>)
    ensures
        members(r) == no_members(),
{
    serde_json::Map::new()
}

/// `serde_json::Map::insert`: the object then holds the value under the
/// key, in place of what it held there, and is unchanged elsewhere.
#[verifier::external_body]
pub(crate) fn put(
    object: &mut serde_json::Map<String, serde_json::Value>,
    key: &str,
    value: serde_json::Value,
)
    ensures
        members(*final(object)) == members(*old(object)).insert(key@, held(value)),
{
    object.insert(key.to_owned(), value);
}

/// `serde_json::Value::from` on an object: the value is that object.
#[verifier::external_body]
pub(crate) fn object_value(object: serde_json::Map<String, serde_json::Value>) -> (r:
    serde_json::Value)
    ensures
        held(r) == JsonView::Object(members(object)),
{
    serde_json::Value::from(object)
}

/// `serde_json::Value::from` on a text: the value is that text.
#[verifier::external_body]
pub(crate) fn text_value(text: &str) -> (r: serde_json::Value)
    ensures
        held(r) == JsonView::Text(text@),
{
    serde_json::Value::from(text)
}

/// `serde_json::Value::from` on a truth value.
#[verifier::external_body]
pub(crate) fn bool_value(flag: bool) -> (r: serde_json::Value)
    ensures
        held(r) == JsonView::Bool(flag),
{
    serde_json::Value::from(flag)
}

/// `serde_json::Value::from` on a signed number: the value is that
/// number.
#[verifier::external_body]
pub(crate) fn signed_value(number: i64) -> (r: serde_json::Value)
    ensures
        held(r) == JsonView::Integer(number as int),
{
    serde_json::Value::from(number)
}

/// `serde_json::Value::from` on an unsigned number: the value is that
/// number.
#[verifier::external_body]
pub(crate) fn number_value(number: u64) -> (r: serde_json::Value)
    ensures
        held(r) == JsonView::Integer(number as int),
{
    serde_json::Value::from(number)
}

/// `serde_json::Value::Null`.
#[verifier::external_body]
pub(crate) fn null_value() -> (r: serde_json::Value)
    ensures
        held(r) == JsonView::Null,
{
    serde_json::Value::Null
}

/// `serde_json::Value::from` on a list of values: the value is the array
/// of them, in their order.
#[verifier::external_body]
pub(crate) fn array_value(values: Vec<serde_json::Value>) -> (r: serde_json::Value)
    ensures
        held(r) == JsonView::Array(all_held(values@)),
{
    serde_json::Value::from(values)
}

/// The value that a text spells, if it spells one.
pub uninterp spec fn parsed(text: Seq<char>) -> Option<JsonView>;

/// `serde_json::from_str`: the value that the text spells, which is named
/// and not described. Why a text spells none is left out.
#[verifier::external_body]
pub(crate) fn parse(text: &str) -> (r: Option<serde_json::Value>)
    ensures
        opt_held(r) == parsed(text@),
{
    serde_json::from_str::<serde_json::Value>(text).ok()
}

/// How a value is spelled.
pub uninterp spec fn printed(value: JsonView) -> Option<Seq<char>>;

/// `serde_json::to_string`: how the value is spelled, which is named and
/// not described.
#[verifier::external_body]
pub(crate) fn print(value: &serde_json::Value) -> (r: Option<String>)
    ensures
        text::opt_text(r) == printed(held(*value)),
{
    serde_json::to_string(value).ok()
}

/// `serde_json::Value::get` with a key: the member of that key, where the
/// value is an object that has one.
#[verifier::external_body]
pub(crate) fn member<'a>(value: &'a serde_json::Value, key: &str) -> (r: Option<
    &'a serde_json::Value,
>)
    ensures
        opt_ref_held(r) == member_of(held(*value), key@),
{
    value.get(key)
}

/// `serde_json::Value::as_array`: the values of an array; none where the
/// value is not one.
#[verifier::external_body]
pub(crate) fn items(value: &serde_json::Value) -> (r: Option<&Vec<serde_json::Value>>)
    ensures
        opt_items_held(r) == items_of(held(*value)),
{
    value.as_array()
}

/// `serde_json::Value::as_str`: the text that the value is; none where it
/// is not one.
#[verifier::external_body]
pub(crate) fn as_text(value: &serde_json::Value) -> (r: Option<&str>)
    ensures
        text::opt_str(r) == text_in(held(*value)),
{
    value.as_str()
}

/// An array of texts.
pub(crate) fn text_array_value(texts: &Vec<String>) -> (r: serde_json::Value)
    ensures
        held(r) == text_array(text::texts(texts@)),
{
    let mut values: Vec<serde_json::Value> = Vec::new();
    let mut i: usize = 0;
    while i < texts.len()
        invariant
            i <= texts@.len(),
            values@.len() == i,
            forall|j: int|
                0 <= j < i ==> held(#[trigger] values@[j]) == JsonView::Text(texts@[j]@),
        decreases texts@.len() - i,
    {
        values.push(text_value(texts[i].as_str()));
        i = i + 1;
    }
    proof {
        let items = text::texts(texts@);
        assert(all_held(values@) =~= Seq::new(items.len(), |j: int| JsonView::Text(items[j])));
    }
    array_value(values)
}

} // verus!
