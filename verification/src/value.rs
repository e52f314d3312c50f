//! The boundary to `serde_json`: what it parses and writes is its own `Value`,
//! which is taken apart and put together here, one node at a time.

use crate::json::{array_view, lemma_array_view, lemma_item_decreases, lemma_json_decreases};
use crate::json::{lemma_value_decreases, object_view, Json, JsonView};
use crate::text::blank;
use serde_json::{Number, Value};
use vstd::prelude::*;

verus! {

/// `serde_json::Number`, carried through unread.
#[verifier::external_type_specification]
#[verifier::external_body]
pub struct ExNumber(serde_json::Number);

/// `serde_json::Value`, a parsed JSON document.
#[verifier::external_type_specification]
#[verifier::external_body]
pub struct ExValue(serde_json::Value);

/// `serde_json::Map`, the entries of a JSON object.
#[verifier::external_type_specification]
#[verifier::external_body]
#[verifier::reject_recursive_types(K)]
#[verifier::reject_recursive_types(V)]
pub struct ExMap<K, V>(serde_json::Map<K, V>);

/// The document that a `serde_json::Value` holds.
pub uninterp spec fn value_view(value: serde_json::Value) -> JsonView;

/// The entries that a `serde_json::Map` holds.
pub uninterp spec fn entries_view(map: serde_json::Map<String, Value>) -> Map<Seq<char>, JsonView>;

/// What `serde_json::from_str::<Value>` makes of a text: the document, or the
/// message of its error.
pub uninterp spec fn parsed(text: Seq<char>) -> Result<JsonView, Seq<char>>;

/// The compact text that `serde_json` writes for a document.
pub uninterp spec fn written(document: JsonView) -> Seq<char>;

/// The JSON number that an unsigned integer is.
pub uninterp spec fn number_of(value: u64) -> serde_json::Number;

/// The top node of a `serde_json::Value`: its variant and what stands in it.
enum Shape<'a> {
    Null,
    Bool(bool),
    Number(&'a Number),
    String(&'a String),
    Array(&'a Vec<Value>),
    Object(&'a serde_json::Map<String, Value>),
}

/// The documents of a list of values.
pub open spec fn values_view(values: Seq<Value>) -> Seq<JsonView> {
    Seq::new(values.len(), |i: int| value_view(values[i]))
}

impl<'a> Shape<'a> {
    /// The document whose top node this is.
    spec fn document(self) -> JsonView {
        match self {
            Shape::Null => JsonView::Null,
            Shape::Bool(value) => JsonView::Bool(value),
            Shape::Number(number) => JsonView::Number(*number),
            Shape::String(text) => JsonView::String(text@),
            Shape::Array(values) => JsonView::Array(values_view(values@)),
            Shape::Object(map) => JsonView::Object(entries_view(*map)),
        }
    }
}

/// Tells the variants of `serde_json::Value` apart: the document that the value
/// holds is the one that its variant and the fields in it spell out.
#[verifier::external_body]
fn shape(value: &Value) -> (shape: Shape<'_>)
    ensures
        shape.document() == value_view(*value),
{
    match value {
        Value::Null => Shape::Null,
        Value::Bool(value) => Shape::Bool(*value),
        Value::Number(number) => Shape::Number(number),
        Value::String(text) => Shape::String(text),
        Value::Array(values) => Shape::Array(values),
        Value::Object(map) => Shape::Object(map),
    }
}

/// `serde_json::Map::iter`: every entry of the map once, in some order.
#[verifier::external_body]
fn entries(map: &serde_json::Map<String, Value>) -> (entries: Vec<(&String, &Value)>)
    ensures
        forall|i: int|
            0 <= i < entries@.len() ==> entries_view(*map).contains_key(
                (#[trigger] entries@[i]).0@,
            ) && entries_view(*map)[entries@[i].0@] == value_view(*entries@[i].1),
        forall|key: Seq<char>| #[trigger]
            entries_view(*map).contains_key(key) ==> exists|i: int|
                0 <= i < entries@.len() && (#[trigger] entries@[i]).0@ == key,
        forall|i: int, j: int|
            0 <= i < j < entries@.len() ==> (#[trigger] entries@[i]).0@ != (
            #[trigger] entries@[j]).0@,
{
    map.iter().collect()
}

/// `serde_json::Number::clone`: the same number.
#[verifier::external_body]
pub(crate) fn copy_number(number: &Number) -> (copy: Number)
    ensures
        copy == *number,
{
    number.clone()
}

/// The document that a value holds.
pub fn document(value: &Value) -> (json: Json)
    ensures
        json@ == value_view(*value),
    decreases value_view(*value),
{
    match shape(value) {
        Shape::Null => Json::Null,
        Shape::Bool(value) => Json::Bool(value),
        Shape::Number(number) => Json::Number(copy_number(number)),
        Shape::String(text) => Json::String(text.clone()),
        Shape::Array(values) => {
            let mut items: Vec<Json> = Vec::new();
            let mut at: usize = 0;
            let ghost views = values_view(values@);
            #[verifier::loop_isolation(false)]
            while at < values.len()
                invariant
                    at <= values@.len(),
                    items@.len() == at,
                    views == values_view(values@),
                    value_view(*value) == JsonView::Array(views),
                    forall|i: int| 0 <= i < at ==> (#[trigger] items@[i])@ == views[i],
                decreases values@.len() - at,
            {
                proof {
                    assert(views[at as int] == value_view(values@[at as int]));
                    lemma_item_decreases(views, at as int);
                }
                items.push(document(&values[at]));
                at = at + 1;
            }
            proof {
                lemma_array_view(items@);
                assert(array_view(items@) =~= views);
            }
            Json::Array(items)
        },
        Shape::Object(map) => {
            let list = entries(map);
            let mut done: Vec<(String, Json)> = Vec::new();
            let mut at: usize = 0;
            let ghost all = entries_view(*map);
            #[verifier::loop_isolation(false)]
            while at < list.len()
                invariant
                    at <= list@.len(),
                    all == entries_view(*map),
                    value_view(*value) == JsonView::Object(all),
                    forall|i: int|
                        0 <= i < list@.len() ==> all.contains_key((#[trigger] list@[i]).0@)
                            && all[list@[i].0@] == value_view(*list@[i].1),
                    forall|key: Seq<char>| #[trigger]
                        object_view(done@).contains_key(key) ==> all.contains_key(key)
                            && object_view(done@)[key] == all[key],
                    forall|i: int|
                        0 <= i < at ==> object_view(done@).contains_key((#[trigger] list@[i]).0@),
                decreases list@.len() - at,
            {
                let ghost before = done@;
                let key = list[at].0.clone();
                proof {
                    assert(all.contains_key(list@[at as int].0@));
                    lemma_value_decreases(all, list@[at as int].0@);
                }
                let item = document(list[at].1);
                done.push((key, item));
                assert(done@.drop_last() =~= before);
                at = at + 1;
            }
            assert(object_view(done@) =~= all);
            Json::Object(done)
        },
    }
}

/// A node to build a `serde_json::Value` from.
enum Node {
    Null,
    Bool(bool),
    Number(Number),
    String(String),
    Array(Vec<Value>),
    Object(serde_json::Map<String, Value>),
}

impl Node {
    /// The document whose top node this is.
    spec fn document(self) -> JsonView {
        match self {
            Node::Null => JsonView::Null,
            Node::Bool(value) => JsonView::Bool(value),
            Node::Number(number) => JsonView::Number(number),
            Node::String(text) => JsonView::String(text@),
            Node::Array(values) => JsonView::Array(values_view(values@)),
            Node::Object(map) => JsonView::Object(entries_view(map)),
        }
    }
}

/// The constructors of `serde_json::Value`: the value holds the document that
/// the variant and the fields in it spell out.
#[verifier::external_body]
fn build(node: Node) -> (value: Value)
    ensures
        value_view(value) == node.document(),
{
    match node {
        Node::Null => Value::Null,
        Node::Bool(value) => Value::Bool(value),
        Node::Number(number) => Value::Number(number),
        Node::String(text) => Value::String(text),
        Node::Array(values) => Value::Array(values),
        Node::Object(map) => Value::Object(map),
    }
}

/// `serde_json::Map::new`: a map without entries.
#[verifier::external_body]
fn new_map() -> (map: serde_json::Map<String, Value>)
    ensures
        JsonView::Object(entries_view(map)) == JsonView::object(),
{
    serde_json::Map::new()
}

/// `serde_json::Map::insert`: the key now maps to the value, and nothing else
/// changes.
#[verifier::external_body]
fn map_insert(map: &mut serde_json::Map<String, Value>, key: String, value: Value)
    ensures
        entries_view(*final(map)) == entries_view(*old(map)).insert(key@, value_view(value)),
{
    map.insert(key, value);
}

/// `serde_json::from_str::<Value>`: the document, or the message of the error.
/// Which texts are documents, and of which, is left to `serde_json`.
#[verifier::external_body]
fn parse_value(text: &str) -> (value: Result<Value, String>)
    ensures
        match value {
            Ok(value) => parsed(text@) matches Ok(document) && document == value_view(value),
            Err(message) => parsed(text@) matches Err(reason) && reason == message@,
        },
{
    match serde_json::from_str::<Value>(text) {
        Ok(value) => Ok(value),
        Err(error) => Err(error.to_string()),
    }
}

/// `serde_json::Value::to_string`: the compact text of the document. It starts
/// with a letter, a digit, a sign, a quote or a bracket, so it is never blank;
/// how else it looks is left to `serde_json`.
#[verifier::external_body]
fn write_value(value: &Value) -> (text: String)
    ensures
        text@ == written(value_view(*value)),
        !blank(text@),
{
    value.to_string()
}

/// `serde_json::Number::from::<u64>`.
#[verifier::external_body]
pub(crate) fn number(value: u64) -> (number: Number)
    ensures
        number == number_of(value),
{
    Number::from(value)
}

/// The value that holds a document.
pub fn value_of(json: &Json) -> (value: Value)
    ensures
        value_view(value) == json@,
    decreases *json,
{
    match json {
        Json::Null => build(Node::Null),
        Json::Bool(value) => build(Node::Bool(*value)),
        Json::Number(number) => build(Node::Number(copy_number(number))),
        Json::String(text) => build(Node::String(text.clone())),
        Json::Array(items) => {
            let mut values: Vec<Value> = Vec::new();
            let mut at: usize = 0;
            #[verifier::loop_isolation(false)]
            while at < items.len()
                invariant
                    at <= items@.len(),
                    values@.len() == at,
                    *json == Json::Array(*items),
                    forall|i: int| 0 <= i < at ==> value_view(#[trigger] values@[i]) == items@[i]@,
                decreases items@.len() - at,
            {
                proof {
                    lemma_json_decreases(*json);
                }
                values.push(value_of(&items[at]));
                at = at + 1;
            }
            proof {
                lemma_array_view(items@);
                assert(values_view(values@) =~= array_view(items@));
            }
            build(Node::Array(values))
        },
        Json::Object(entries) => {
            let mut map = new_map();
            let mut at: usize = 0;
            #[verifier::loop_isolation(false)]
            while at < entries.len()
                invariant
                    at <= entries@.len(),
                    *json == Json::Object(*entries),
                    entries_view(map) == object_view(entries@.take(at as int)),
                decreases entries@.len() - at,
            {
                proof {
                    lemma_json_decreases(*json);
                }
                let value = value_of(&entries[at].1);
                map_insert(&mut map, entries[at].0.clone(), value);
                assert(entries@.take(at + 1).drop_last() =~= entries@.take(at as int));
                at = at + 1;
            }
            assert(entries@.take(at as int) =~= entries@);
            build(Node::Object(map))
        },
    }
}

/// Reads a JSON text: the document, or the message of the error.
pub fn parse(text: &str) -> (json: Result<Json, String>)
    ensures
        match json {
            Ok(json) => parsed(text@) matches Ok(document) && document == json@,
            Err(message) => parsed(text@) matches Err(reason) && reason == message@,
        },
{
    match parse_value(text) {
        Ok(value) => Ok(document(&value)),
        Err(message) => Err(message),
    }
}

/// Writes a document as compact JSON text, which is never blank.
pub fn json_to_text(json: &Json) -> (text: String)
    ensures
        text@ == written(json@),
        !blank(text@),
{
    let value = value_of(json);
    write_value(&value)
}

} // verus!
