//! JSON documents seen as values: parsing text with `serde_json`, and
//! reading fields, arrays, strings and unsigned integers out of the result.

use vstd::prelude::*;
use crate::data::record::{Value, ValueModel};
use crate::data::text::{parse_u64, parse_u64_spec};
use serde_json::Value as JsonValue;

verus! {

/// A parsed JSON document, carried through unchanged.
#[verifier::external_type_specification]
#[verifier::external_body]
pub struct ExJsonValue(JsonValue);

/// The value that `serde_json` parses from a text, if the text is JSON;
/// numbers are held as `serde_json`'s display of them.
pub uninterp spec fn json_parse(text: Seq<char>) -> Option<ValueModel>;

/// The compact JSON text that `serde_json` writes for a value.
pub uninterp spec fn json_text(v: ValueModel) -> Seq<char>;

/// Parses `text` with `serde_json::from_str` into a `serde_json::Value` and
/// converts it into a [`Value`], one variant for one; `None` when the text
/// is not JSON.
#[verifier::external_body]
pub(crate) fn parse_json(text: &str) -> (r: Option<Value>)
    ensures
        match r {
            Some(v) => json_parse(text@) == Some(v@),
            None => json_parse(text@) is None,
        },
{
    match serde_json::from_str::<JsonValue>(text) {
        Ok(v) => Some(from_json(v)),
        Err(_) => None,
    }
}

/// Converts a `serde_json::Value` into a [`Value`], variant by variant; a
/// number becomes its display text.
#[verifier::external_body]
fn from_json(v: JsonValue) -> Value {
    match v {
        JsonValue::Null => Value::Null,
        JsonValue::Bool(b) => Value::Bool(b),
        JsonValue::Number(n) => Value::Number(n.to_string()),
        JsonValue::String(s) => Value::String(s),
        JsonValue::Array(a) => Value::Array(a.into_iter().map(from_json).collect()),
        JsonValue::Object(o) => Value::Object(o.into_iter().map(|(k, x)| (k, from_json(x))).collect()),
    }
}

/// Writes a value as compact JSON with `serde_json::to_string`, after
/// converting it into a `serde_json::Value` variant by variant.
#[verifier::external_body]
pub(crate) fn write_json(v: &Value) -> (r: String)
    ensures
        r@ == json_text(v@),
{
    serde_json::to_string(&to_json(v)).unwrap_or_default()
}

/// Converts a [`Value`] into a `serde_json::Value`, variant by variant; a
/// number text that `serde_json` does not read as a number becomes null.
#[verifier::external_body]
fn to_json(v: &Value) -> JsonValue {
    match v {
        Value::Null => JsonValue::Null,
        Value::Bool(b) => JsonValue::Bool(*b),
        Value::Number(t) => t.parse::<serde_json::Number>().map(JsonValue::Number).unwrap_or(JsonValue::Null),
        Value::String(s) => JsonValue::String(s.clone()),
        Value::Array(a) => JsonValue::Array(a.iter().map(to_json).collect()),
        Value::Object(o) => JsonValue::Object(o.iter().map(|(k, x)| (k.clone(), to_json(x))).collect()),
    }
}

/// The value under `key` in a list of object entries; a later entry wins.
pub open spec fn entry_lookup(entries: Seq<(Seq<char>, ValueModel)>, key: Seq<char>) -> Option<ValueModel>
    decreases entries.len(),
{
    if entries.len() == 0 {
        None
    } else if entries.last().0 == key {
        Some(entries.last().1)
    } else {
        entry_lookup(entries.drop_last(), key)
    }
}

/// The value under `key` when `v` is an object, as `serde_json`'s `get`.
pub open spec fn field_of(v: ValueModel, key: Seq<char>) -> Option<ValueModel> {
    match v {
        ValueModel::Object(entries) => entry_lookup(entries, key),
        _ => None,
    }
}

/// The items when `v` is an array.
pub open spec fn items_of(v: ValueModel) -> Option<Seq<ValueModel>> {
    match v {
        ValueModel::Array(items) => Some(items),
        _ => None,
    }
}

/// The text when `v` is a string.
pub open spec fn text_of(v: ValueModel) -> Option<Seq<char>> {
    match v {
        ValueModel::Text(s) => Some(s),
        _ => None,
    }
}

/// The number when `v` is a number that is an unsigned 64-bit integer.
pub open spec fn u64_of(v: ValueModel) -> Option<u64> {
    match v {
        ValueModel::Number(t) => parse_u64_spec(t),
        _ => None,
    }
}

/// The field `key` of an optional value.
pub open spec fn opt_field(v: Option<ValueModel>, key: Seq<char>) -> Option<ValueModel> {
    match v {
        Some(x) => field_of(x, key),
        None => None,
    }
}

/// An optional value's text, when it is a string.
pub open spec fn opt_text(v: Option<ValueModel>) -> Option<Seq<char>> {
    match v {
        Some(x) => text_of(x),
        None => None,
    }
}

/// An optional value's items, when it is an array.
pub open spec fn opt_items(v: Option<ValueModel>) -> Option<Seq<ValueModel>> {
    match v {
        Some(x) => items_of(x),
        None => None,
    }
}

/// An optional value's number, when it is an unsigned 64-bit integer.
pub open spec fn opt_u64(v: Option<ValueModel>) -> Option<u64> {
    match v {
        Some(x) => u64_of(x),
        None => None,
    }
}

proof fn lemma_lookup_at(entries: Seq<(Seq<char>, ValueModel)>, key: Seq<char>, i: int)
    requires
        0 <= i < entries.len(),
        entries[i].0 == key,
        forall|j: int| i < j < entries.len() ==> entries[j].0 != key,
    ensures
        entry_lookup(entries, key) == Some(entries[i].1),
    decreases entries.len(),
{
    if i < entries.len() - 1 {
        let p = entries.drop_last();
        lemma_lookup_at(p, key, i);
    }
}

proof fn lemma_lookup_absent(entries: Seq<(Seq<char>, ValueModel)>, key: Seq<char>)
    requires
        forall|j: int| 0 <= j < entries.len() ==> entries[j].0 != key,
    ensures
        entry_lookup(entries, key) is None,
    decreases entries.len(),
{
    if entries.len() > 0 {
        lemma_lookup_absent(entries.drop_last(), key);
    }
}

impl Value {
    /// The value under `key` when this is an object, as `serde_json`'s
    /// `get` with a string index.
    pub fn get_field(&self, key: &str) -> (r: Option<&Value>)
        ensures
            match r {
                Some(x) => field_of(self@, key@) == Some(x@),
                None => field_of(self@, key@) is None,
            },
    {
        match self {
            Value::Object(entries) => {
                let ghost model = self@->Object_0;
                assert(model.len() == entries@.len());
                let wanted = crate::data::text::owned(key);
                let mut i: usize = entries.len();
                while i > 0
                    invariant
                        i <= entries@.len(),
                        *self == Value::Object(*entries),
                        model == self@->Object_0,
                        model.len() == entries@.len(),
                        wanted@ == key@,
                        forall|j: int| i <= j < entries@.len() ==> entries@[j].0@ != key@,
                    decreases i,
                {
                    i = i - 1;
                    assert(model[i as int] == (entries@[i as int].0@, entries@[i as int].1@));
                    if entries[i].0 == wanted {
                        proof {
                            assert forall|j: int| i < j < model.len() implies model[j].0 != key@ by {
                                assert(model[j] == (entries@[j].0@, entries@[j].1@));
                            }
                            lemma_lookup_at(model, key@, i as int);
                        }
                        return Some(&entries[i].1);
                    }
                }
                proof {
                    assert forall|j: int| 0 <= j < model.len() implies model[j].0 != key@ by {
                        assert(model[j] == (entries@[j].0@, entries@[j].1@));
                    }
                    lemma_lookup_absent(model, key@);
                }
                None
            },
            _ => None,
        }
    }

    /// The items when this is an array.
    pub fn as_array(&self) -> (r: Option<&Vec<Value>>)
        ensures
            r is Some <==> self is Array,
            r matches Some(a) ==> *self == Value::Array(*a),
    {
        match self {
            Value::Array(a) => Some(a),
            _ => None,
        }
    }

    /// The text when this is a string.
    pub fn as_str(&self) -> (r: Option<&String>)
        ensures
            r is Some <==> self is String,
            r matches Some(s) ==> *self == Value::String(*s),
    {
        match self {
            Value::String(s) => Some(s),
            _ => None,
        }
    }

    /// The number when this is a number that is an unsigned 64-bit integer.
    pub fn as_u64(&self) -> (r: Option<u64>)
        ensures
            r == u64_of(self@),
    {
        match self {
            Value::Number(t) => parse_u64(t.as_str()),
            _ => None,
        }
    }
}

} // verus!
