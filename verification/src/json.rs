//! JSON values, as the `serde_json` crate holds them.
//!
//! A `Value` is that crate's own. Contracts speak of the tree that it holds.
use vstd::prelude::*;

use serde_json::Value;

verus! {

/// What a JSON value holds.
pub enum JsonTree {
    Null,
    Flag(bool),
    Integer(int),
    /// A number with a fraction or an exponent, as it is written.
    Decimal(Seq<char>),
    Text(Seq<char>),
    List(Seq<JsonTree>),
    Object(Map<Seq<char>, JsonTree>),
}

/// `serde_json::Value`. Nothing is claimed of it here; see `json_tree`.
#[verifier::external_type_specification]
#[verifier::external_body]
pub struct ExValue(Value);

/// What a JSON value holds.
pub uninterp spec fn json_tree(value: Value) -> JsonTree;

/// What each of the values holds.
pub open spec fn json_trees(values: Seq<Value>) -> Seq<JsonTree> {
    Seq::new(values.len(), |i: int| json_tree(values[i]))
}

/// The object that has the fields. Of two fields with one name the later one stays.
pub open spec fn object_of(fields: Seq<(String, Value)>) -> Map<Seq<char>, JsonTree>
    decreases fields.len(),
{
    if fields.len() == 0 {
        Map::empty()
    } else {
        object_of(fields.drop_last()).insert(fields.last().0@, json_tree(fields.last().1))
    }
}

/// `Value::from`, for a text: a string with its characters.
#[verifier::external_body]
pub(crate) fn text_value(text: &str) -> (value: Value)
    ensures
        json_tree(value) == JsonTree::Text(text@),
{
    Value::from(text)
}

/// `Value::from`, for a `bool`.
#[verifier::external_body]
pub(crate) fn flag_value(flag: bool) -> (value: Value)
    ensures
        json_tree(value) == JsonTree::Flag(flag),
{
    Value::from(flag)
}

/// `Value::from`, for an `i64`: the number.
#[verifier::external_body]
pub(crate) fn integer_value(number: i64) -> (value: Value)
    ensures
        json_tree(value) == JsonTree::Integer(number as int),
{
    Value::from(number)
}

/// `Value::from`, for a list: an array of the values, in their order.
#[verifier::external_body]
pub(crate) fn list_value(items: Vec<Value>) -> (value: Value)
    ensures
        json_tree(value) == JsonTree::List(json_trees(items@)),
{
    Value::from(items)
}

/// `Value::from_iter`, for fields: an object that has them. The fields are collected
/// into a map, in which a later one takes the place of an earlier one with its name.
#[verifier::external_body]
pub(crate) fn object_value(fields: Vec<(String, Value)>) -> (value: Value)
    ensures
        json_tree(value) == JsonTree::Object(object_of(fields@)),
{
    Value::from_iter(fields)
}

/// How `serde_json::to_string_pretty` writes a value that holds the tree.
pub uninterp spec fn pretty_json(tree: JsonTree) -> Seq<char>;

/// `serde_json::to_string_pretty`: a function of what the value holds, because the
/// fields of an object are kept in the order of their names. It does not fail on a
/// `Value`: the names of fields are texts, and numbers are finite.
#[verifier::external_body]
pub(crate) fn pretty(value: &Value) -> (text: String)
    ensures
        text@ == pretty_json(json_tree(*value)),
{
    serde_json::to_string_pretty(value).unwrap()
}

} // verus!
