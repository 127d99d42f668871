//! JSON values as the forms see them, and the JSON object that carries a
//! submission or a stored answer.

use vstd::prelude::*;
use crate::views::{lemma_view_each_eq, view_each};

verus! {

/// One element of a submitted list.
#[derive(Debug, PartialEq)]
pub enum JsonItem {
    /// An integer that fits `i64`.
    Integer(i64),
    Text(String),
    /// Any other JSON value; it equals no option of a choice field.
    Other,
}

/// A submitted or stored JSON value, as far as a form field can tell values apart.
#[derive(Debug, PartialEq)]
pub enum JsonValue {
    Null,
    Bool(bool),
    /// An integer that fits `i64`.
    Integer(i64),
    /// A number that is no `i64`: a fraction, or an integer beyond its range.
    Number,
    Text(String),
    List(Vec<JsonItem>),
    Object,
}

/// What a `JsonItem` is to the contracts: texts and lists are sequences.
pub enum JsonItemView {
    Integer(i64),
    Text(Seq<char>),
    Other,
}

/// What a `JsonValue` is to the contracts: texts and lists are sequences.
pub enum JsonValueView {
    Null,
    Bool(bool),
    Integer(i64),
    Number,
    Text(Seq<char>),
    List(Seq<JsonItemView>),
    Object,
}

impl View for JsonItem {
    type V = JsonItemView;

    open spec fn view(&self) -> JsonItemView {
        match self {
            JsonItem::Integer(i) => JsonItemView::Integer(*i),
            JsonItem::Text(s) => JsonItemView::Text(s@),
            JsonItem::Other => JsonItemView::Other,
        }
    }
}

impl View for JsonValue {
    type V = JsonValueView;

    open spec fn view(&self) -> JsonValueView {
        match self {
            JsonValue::Null => JsonValueView::Null,
            JsonValue::Bool(b) => JsonValueView::Bool(*b),
            JsonValue::Integer(i) => JsonValueView::Integer(*i),
            JsonValue::Number => JsonValueView::Number,
            JsonValue::Text(s) => JsonValueView::Text(s@),
            JsonValue::List(items) => JsonValueView::List(view_each(items@)),
            JsonValue::Object => JsonValueView::Object,
        }
    }
}

impl JsonValueView {
    /// A value that a JSON object can hold without loss: no `Number`, no
    /// `Object`, and no `Other` among the items of a list.
    pub open spec fn storable(self) -> bool {
        match self {
            JsonValueView::Number | JsonValueView::Object => false,
            JsonValueView::List(items) => forall|i: int|
                0 <= i < items.len() ==> !(#[trigger] items[i] is Other),
            _ => true,
        }
    }
}

impl Clone for JsonItem {
    fn clone(&self) -> (copy: Self)
        ensures
            copy@ == self@,
    {
        match self {
            JsonItem::Integer(i) => JsonItem::Integer(*i),
            JsonItem::Text(s) => JsonItem::Text(s.clone()),
            JsonItem::Other => JsonItem::Other,
        }
    }
}

impl Clone for JsonValue {
    fn clone(&self) -> (copy: Self)
        ensures
            copy@ == self@,
    {
        match self {
            JsonValue::Null => JsonValue::Null,
            JsonValue::Bool(b) => JsonValue::Bool(*b),
            JsonValue::Integer(i) => JsonValue::Integer(*i),
            JsonValue::Number => JsonValue::Number,
            JsonValue::Text(s) => JsonValue::Text(s.clone()),
            JsonValue::List(items) => {
                let mut copy: Vec<JsonItem> = Vec::new();
                let mut i: usize = 0;
                while i < items.len()
                    invariant
                        i <= items.len(),
                        copy.len() == i,
                        forall|j: int| 0 <= j < i ==> copy[j]@ == items[j]@,
                    decreases items.len() - i,
                {
                    copy.push(items[i].clone());
                    i += 1;
                }
                proof {
                    lemma_view_each_eq(copy@, items@);
                }
                JsonValue::List(copy)
            },
            JsonValue::Object => JsonValue::Object,
        }
    }
}

#[verifier::external_type_specification]
#[verifier::external_body]
#[verifier::reject_recursive_types(K)]
#[verifier::reject_recursive_types(V)]
pub struct ExJsonMap<K, V>(serde_json::Map<K, V>);

#[verifier::external_type_specification]
#[verifier::external_body]
pub struct ExJsonTree(serde_json::Value);

/// What a JSON object holds: for each key, the value under it as a form sees it.
pub uninterp spec fn object_entries(object: serde_json::Map<String, serde_json::Value>) -> Map<
    Seq<char>,
    JsonValueView,
>;

/// The entries of an object that holds nothing.
pub open spec fn no_entries() -> Map<Seq<char>, JsonValueView> {
    Map::empty()
}

/// `serde_json::Map::new`: the new object holds nothing.
#[verifier::external_body]
pub(crate) fn object_new() -> (object: serde_json::Map<String, serde_json::Value>)
    ensures
        object_entries(object) == no_entries(),
{
    serde_json::Map::new()
}

/// `serde_json::Map::get`, with the value found turned into a `JsonValue`
/// variant by variant (`Number::as_i64` tells `Integer` from `Number`): `None`
/// exactly when the object has nothing under `key`.
#[verifier::external_body]
pub(crate) fn object_get(
    object: &serde_json::Map<String, serde_json::Value>,
    key: &str,
) -> (found: Option<JsonValue>)
    ensures
        found is Some <==> object_entries(*object).dom().contains(key@),
        found matches Some(value) ==> value@ == object_entries(*object)[key@],
{
    object.get(key).map(|v| match v {
        serde_json::Value::Null => JsonValue::Null,
        serde_json::Value::Bool(b) => JsonValue::Bool(*b),
        serde_json::Value::Number(n) => n.as_i64().map_or(JsonValue::Number, JsonValue::Integer),
        serde_json::Value::String(s) => JsonValue::Text(s.clone()),
        serde_json::Value::Array(a) => JsonValue::List(a.iter().map(|x| match x {
            serde_json::Value::Number(n) => n.as_i64().map_or(JsonItem::Other, JsonItem::Integer),
            serde_json::Value::String(s) => JsonItem::Text(s.clone()),
            _ => JsonItem::Other,
        }).collect()),
        serde_json::Value::Object(_) => JsonValue::Object,
    })
}

/// `serde_json::Map::insert`, with the `JsonValue` turned into the JSON value
/// of the same variant first: afterwards the object holds `value` under `key`
/// and everything else as before.
#[verifier::external_body]
pub(crate) fn object_insert(
    object: &mut serde_json::Map<String, serde_json::Value>,
    key: String,
    value: JsonValue,
)
    requires
        value@.storable(),
    ensures
        object_entries(*final(object)) == object_entries(*old(object)).insert(key@, value@),
{
    object.insert(key, match value {
        JsonValue::Bool(b) => serde_json::Value::Bool(b),
        JsonValue::Integer(i) => serde_json::Value::from(i),
        JsonValue::Text(s) => serde_json::Value::String(s),
        JsonValue::List(items) => serde_json::Value::Array(items.into_iter().map(|x| match x {
            JsonItem::Integer(i) => serde_json::Value::from(i),
            JsonItem::Text(s) => serde_json::Value::String(s),
            JsonItem::Other => serde_json::Value::Null,
        }).collect()),
        _ => serde_json::Value::Null,
    });
}

/// `Clone::clone` of `serde_json::Map`: the copy is equal to the object.
#[verifier::external_body]
pub(crate) fn object_clone(object: &serde_json::Map<String, serde_json::Value>) -> (copy:
    serde_json::Map<String, serde_json::Value>)
    ensures
        copy == *object,
{
    object.clone()
}

/// `serde_json::Map::append`: afterwards the object holds what `source`
/// held and, under the keys that `source` did not have, what it held before.
#[verifier::external_body]
pub(crate) fn object_append(
    object: &mut serde_json::Map<String, serde_json::Value>,
    source: serde_json::Map<String, serde_json::Value>,
)
    ensures
        object_entries(*final(object)) == object_entries(*old(object)).union_prefer_right(
            object_entries(source),
        ),
{
    let mut source = source;
    object.append(&mut source);
}

} // verus!
