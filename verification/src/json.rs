//! JSON values, looked at one level at a time.

use serde_json::Value;
use vstd::prelude::*;

use crate::text::{goes_behind, same_text};

verus! {

/// A JSON value.
#[verifier::external_type_specification]
#[verifier::external_body]
pub struct ExValue(serde_json::Value);

/// A JSON value.
pub ghost enum JsonView {
    /// An object by its entries, no two of which have the same key.
    Object(Seq<(Seq<char>, JsonView)>),
    Array(Seq<JsonView>),
    Text(Seq<char>),
    /// A number as it is written.
    Number(Seq<char>),
    Bool(bool),
    Null,
}

/// What a JSON value holds.
pub uninterp spec fn json_contents(value: Value) -> JsonView;

/// The JSON value that a text is; nothing where it is none.
pub uninterp spec fn json_value(text: Seq<char>) -> Option<JsonView>;

/// A JSON value, written out.
pub uninterp spec fn json_text(value: JsonView) -> Seq<char>;

/// The entries of the JSON object that a text is; nothing where it is none.
pub open spec fn json_object(text: Seq<char>) -> Option<Seq<(Seq<char>, JsonView)>> {
    match json_value(text) {
        Some(JsonView::Object(entries)) => Some(entries),
        _ => None,
    }
}

/// Whether a value holds no numbers and is nested no deeper than a number of
/// levels.
pub open spec fn is_simple(value: JsonView, depth: int) -> bool
    decreases value,
{
    match value {
        JsonView::Object(entries) => depth > 0 && forall|i: int|
            0 <= i < entries.len() ==> is_simple((#[trigger] entries[i]).1, depth - 1),
        JsonView::Array(items) => depth > 0 && forall|i: int|
            0 <= i < items.len() ==> is_simple(#[trigger] items[i], depth - 1),
        JsonView::Number(_) => false,
        _ => true,
    }
}

/// The entries of an object.
pub open spec fn entries_of(entries: Seq<(String, Value)>) -> Seq<(Seq<char>, JsonView)> {
    entries.map_values(|entry: (String, Value)| (entry.0@, json_contents(entry.1)))
}

/// The items of an array.
pub open spec fn items_of(items: Seq<Value>) -> Seq<JsonView> {
    items.map_values(|item: Value| json_contents(item))
}

/// `serde_json::from_str`: whether the text is JSON, and the value, depend on the
/// text alone.
#[verifier::external_body]
pub(crate) fn parse_value(text: &str) -> (r: Option<Value>)
    ensures
        json_value(text@) == (match r {
            Some(value) => Some(json_contents(value)),
            None => None,
        }),
{
    serde_json::from_str(text).ok()
}

/// `serde_json::Value::to_string`: the text depends on the value alone. It reads
/// back as the value if that holds no numbers and is not nested deeper than
/// `serde_json::from_str` goes.
#[verifier::external_body]
pub(crate) fn write_value(value: &Value) -> (r: String)
    ensures
        r@ == json_text(json_contents(*value)),
        is_simple(json_contents(*value), 100) ==> json_value(r@) == Some(json_contents(*value)),
{
    value.to_string()
}

/// `serde_json::Value::String`.
#[verifier::external_body]
pub(crate) fn text_value(text: &str) -> (r: Value)
    ensures
        json_contents(r) == JsonView::Text(text@),
{
    Value::String(text.into())
}

/// `serde_json::Value::Null`.
#[verifier::external_body]
pub(crate) fn null_value() -> (r: Value)
    ensures
        json_contents(r) == JsonView::Null,
{
    Value::Null
}

/// Whether keys stand in order, none of them twice.
pub open spec fn are_in_order(entries: Seq<(Seq<char>, JsonView)>) -> bool {
    forall|i: int, k: int|
        #![trigger entries[i], entries[k]]
        0 <= i < k < entries.len() ==> goes_behind(entries[k].0, entries[i].0)
}

/// `serde_json::Value::Object` on a `serde_json::Map` of the entries. Keys in order
/// stay as they stand, whichever order the map keeps.
#[verifier::external_body]
pub(crate) fn object_value(entries: Vec<(String, Value)>) -> (r: Value)
    requires
        are_in_order(entries_of(entries@)),
    ensures
        json_contents(r) == JsonView::Object(entries_of(entries@)),
{
    Value::Object(entries.into_iter().collect())
}

/// The entries of the JSON object that a text is; nothing where it is none.
pub(crate) fn parse_object(text: &str) -> (r: Option<Vec<(String, Value)>>)
    ensures
        match r {
            Some(entries) => json_object(text@) == Some(entries_of(entries@)),
            None => json_object(text@) is None,
        },
{
    match parse_value(text) {
        Some(value) => as_object(&value),
        None => None,
    }
}

/// `serde_json::Value::as_object`: the entries, if the value is an object.
#[verifier::external_body]
pub(crate) fn as_object(value: &Value) -> (r: Option<Vec<(String, Value)>>)
    ensures
        match r {
            Some(entries) => json_contents(*value) == JsonView::Object(entries_of(entries@)),
            None => !(json_contents(*value) is Object),
        },
{
    let entries = value.as_object()?.iter();
    Some(entries.map(|(key, value)| (key.clone(), value.clone())).collect())
}

/// `serde_json::Value::as_array`: the items, if the value is an array.
#[verifier::external_body]
pub(crate) fn as_array(value: &Value) -> (r: Option<Vec<Value>>)
    ensures
        match r {
            Some(items) => json_contents(*value) == JsonView::Array(items_of(items@)),
            None => !(json_contents(*value) is Array),
        },
{
    value.as_array().cloned()
}

/// `serde_json::Value::as_str`: the text, if the value is one.
#[verifier::external_body]
pub(crate) fn as_text(value: &Value) -> (r: Option<String>)
    ensures
        match r {
            Some(text) => json_contents(*value) == JsonView::Text(text@),
            None => !(json_contents(*value) is Text),
        },
{
    value.as_str().map(String::from)
}

/// `serde_json::Value::is_boolean`.
#[verifier::external_body]
pub(crate) fn is_boolean(value: &Value) -> (r: bool)
    ensures
        r == json_contents(*value) is Bool,
{
    value.is_boolean()
}

/// `serde_json::Value::is_null`.
#[verifier::external_body]
pub(crate) fn is_null(value: &Value) -> (r: bool)
    ensures
        r == json_contents(*value) is Null,
{
    value.is_null()
}

/// `serde_json::Value::clone`: the same value.
#[verifier::external_body]
pub(crate) fn copy_value(value: &Value) -> (r: Value)
    ensures
        json_contents(r) == json_contents(*value),
{
    value.clone()
}

/// The value under a key.
pub open spec fn entry(entries: Seq<(Seq<char>, JsonView)>, key: Seq<char>) -> Option<JsonView>
    decreases entries.len(),
{
    if entries.len() == 0 {
        None
    } else if entries.last().0 == key {
        Some(entries.last().1)
    } else {
        entry(entries.drop_last(), key)
    }
}

/// The entries of the object under a key, none where there is no object.
pub open spec fn object_at(entries: Seq<(Seq<char>, JsonView)>, key: Seq<char>) -> Seq<
    (Seq<char>, JsonView),
> {
    match entry(entries, key) {
        Some(JsonView::Object(object)) => object,
        _ => Seq::empty(),
    }
}

/// Where the value under a key stands.
pub(crate) fn find_entry(entries: &Vec<(String, Value)>, key: &str) -> (r: Option<usize>)
    ensures
        match r {
            Some(i) => i < entries.len() && entry(entries_of(entries@), key@) == Some(
                json_contents(entries@[i as int].1),
            ),
            None => entry(entries_of(entries@), key@) is None,
        },
{
    let ghost view = entries_of(entries@);
    let mut i: usize = entries.len();
    assert(view.take(i as int) == view);
    while i > 0
        invariant
            i <= entries.len(),
            view == entries_of(entries@),
            entry(view, key@) == entry(view.take(i as int), key@),
        decreases i,
    {
        i = i - 1;
        assert(view.take(i + 1).drop_last() == view.take(i as int));
        assert(view.take(i + 1).last() == view[i as int]);
        if same_text(entries[i].0.as_str(), key) {
            return Some(i);
        }
    }
    assert(view.take(0).len() == 0);
    None
}

/// The entries of the object under a key, none where there is no object.
pub(crate) fn find_object(entries: &Vec<(String, Value)>, key: &str) -> (r: Vec<(String, Value)>)
    ensures
        entries_of(r@) == object_at(entries_of(entries@), key@),
{
    if let Some(i) = find_entry(entries, key) {
        if let Some(object) = as_object(&entries[i].1) {
            return object;
        }
    }
    let r: Vec<(String, Value)> = Vec::new();
    assert(entries_of(r@) == Seq::<(Seq<char>, JsonView)>::empty());
    r
}

/// Where an entry with a key has none with the same key behind it, its value is the one
/// under the key.
pub proof fn law_last_entry_counts(
    entries: Seq<(Seq<char>, JsonView)>,
    key: Seq<char>,
    at: int,
)
    requires
        0 <= at < entries.len(),
        entries[at].0 == key,
        forall|k: int| at < k < entries.len() ==> (#[trigger] entries[k]).0 != key,
    ensures
        entry(entries, key) == Some(entries[at].1),
    decreases entries.len(),
{
    if at < entries.len() - 1 {
        let front = entries.drop_last();
        assert(entries[entries.len() - 1].0 != key);
        assert forall|k: int| at < k < front.len() implies (#[trigger] front[k]).0 != key by {
            assert(entries[k].0 != key);
        }
        law_last_entry_counts(front, key, at);
    }
}

/// There is no value under a key exactly where no entry has the key.
pub proof fn law_missing_entry(entries: Seq<(Seq<char>, JsonView)>, key: Seq<char>)
    ensures
        entry(entries, key) is None <==> forall|i: int|
            0 <= i < entries.len() ==> (#[trigger] entries[i]).0 != key,
    decreases entries.len(),
{
    if entries.len() > 0 {
        let front = entries.drop_last();
        law_missing_entry(front, key);
        if entries.last().0 == key {
            assert(entries[entries.len() - 1].0 == key);
        } else if entry(entries, key) is None {
            assert forall|i: int| 0 <= i < entries.len() implies (#[trigger] entries[i]).0 != key by {
                if i < front.len() {
                    assert(front[i].0 != key);
                }
            }
        } else {
            let i = choose|i: int| 0 <= i < front.len() && (#[trigger] front[i]).0 == key;
            assert(entries[i].0 == key);
        }
    }
}

} // verus!
