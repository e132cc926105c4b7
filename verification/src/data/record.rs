//! The value and record types that flow through extraction, transformation
//! and loading.

use vstd::prelude::*;
use crate::data::json::{json_text, write_json};
use crate::data::table::{Table, table_map, keys_distinct, key_seq};
use crate::data::text::owned;

verus! {

/// A data value.
///
/// A number is held as its decimal text (for instance `30` or `42.5`, as
/// Rust or `serde_json` display it); the library never does arithmetic
/// on it.
#[derive(Debug, PartialEq)]
pub enum Value {
    Null,
    Bool(bool),
    Number(String),
    String(String),
    Array(Vec<Value>),
    Object(Vec<(String, Value)>),
}

/// The mathematical content of a [`Value`].
pub enum ValueModel {
    Null,
    Bool(bool),
    Number(Seq<char>),
    Text(Seq<char>),
    Array(Seq<ValueModel>),
    Object(Seq<(Seq<char>, ValueModel)>),
}

/// A value is empty when it is null, or an empty string, array or object.
pub open spec fn model_is_empty(m: ValueModel) -> bool {
    match m {
        ValueModel::Null => true,
        ValueModel::Text(s) => s.len() == 0,
        ValueModel::Array(a) => a.len() == 0,
        ValueModel::Object(o) => o.len() == 0,
        _ => false,
    }
}

impl Value {
    /// The content of the value.
    pub open spec fn model(&self) -> ValueModel
        decreases self,
    {
        match self {
            Value::Null => ValueModel::Null,
            Value::Bool(b) => ValueModel::Bool(*b),
            Value::Number(n) => ValueModel::Number(n@),
            Value::String(s) => ValueModel::Text(s@),
            Value::Array(items) => ValueModel::Array(
                Seq::new(
                    items@.len(),
                    |i: int|
                        if 0 <= i < items@.len() {
                            items@[i].model()
                        } else {
                            ValueModel::Null
                        },
                ),
            ),
            Value::Object(entries) => ValueModel::Object(
                Seq::new(
                    entries@.len(),
                    |i: int|
                        if 0 <= i < entries@.len() {
                            (entries@[i].0@, entries@[i].1.model())
                        } else {
                            (Seq::empty(), ValueModel::Null)
                        },
                ),
            ),
        }
    }

    /// Returns true if the value is null or empty.
    pub fn is_empty(&self) -> (b: bool)
        ensures
            b == model_is_empty(self.model()),
    {
        match self {
            Value::Null => true,
            Value::String(s) => s.as_str().is_empty(),
            Value::Array(a) => a.len() == 0,
            Value::Object(o) => o.len() == 0,
            _ => false,
        }
    }

    /// A copy of the value with the same content.
    pub fn deep_copy(&self) -> (res: Value)
        ensures
            res.model() == self.model(),
        decreases self,
    {
        match self {
            Value::Null => Value::Null,
            Value::Bool(b) => Value::Bool(*b),
            Value::Number(n) => Value::Number(n.clone()),
            Value::String(s) => Value::String(s.clone()),
            Value::Array(items) => {
                let mut out: Vec<Value> = Vec::new();
                let mut i: usize = 0;
                while i < items.len()
                    invariant
                        i <= items@.len(),
                        *self == Value::Array(*items),
                        out@.len() == i,
                        forall|j: int| 0 <= j < i ==> #[trigger] out@[j].model() == items@[j].model(),
                    decreases items@.len() - i,
                {
                    proof {
                        vstd::std_specs::vec::axiom_vec_index_decreases(*items, i as int);
                        assert(decreases_to!(*self => self->Array_0));
                    }
                    let c = items[i].deep_copy();
                    out.push(c);
                    i = i + 1;
                }
                let ghost a = Seq::new(
                    out@.len(),
                    |k: int| if 0 <= k < out@.len() { out@[k].model() } else { ValueModel::Null },
                );
                let ghost b = Seq::new(
                    items@.len(),
                    |k: int| if 0 <= k < items@.len() { items@[k].model() } else { ValueModel::Null },
                );
                assert(a =~= b);
                let res = Value::Array(out);
                assert(res.model() is Array);
                assert(res.model()->Array_0.len() == a.len());
                assert(forall|k: int| 0 <= k < a.len() ==> res.model()->Array_0[k] == a[k]);
                assert(res.model()->Array_0 =~= a);
                assert(self.model() is Array);
                assert(forall|k: int| 0 <= k < b.len() ==> self.model()->Array_0[k] == b[k]);
                assert(self.model()->Array_0 =~= b);
                res
            },
            Value::Object(entries) => {
                let mut out: Vec<(String, Value)> = Vec::new();
                let mut i: usize = 0;
                while i < entries.len()
                    invariant
                        i <= entries@.len(),
                        *self == Value::Object(*entries),
                        out@.len() == i,
                        forall|j: int| 0 <= j < i ==> #[trigger] out@[j].0@ == entries@[j].0@,
                        forall|j: int| 0 <= j < i ==> #[trigger] out@[j].1.model() == entries@[j].1.model(),
                    decreases entries@.len() - i,
                {
                    proof {
                        vstd::std_specs::vec::axiom_vec_index_decreases(*entries, i as int);
                        assert(decreases_to!(*self => self->Object_0));
                        assert(decreases_to!(entries@[i as int] => entries@[i as int].1));
                    }
                    let k = entries[i].0.clone();
                    let c = entries[i].1.deep_copy();
                    let ghost before = out@;
                    out.push((k, c));
                    assert forall|j: int| 0 <= j < i + 1 implies #[trigger] out@[j].0@ == entries@[j].0@ by {
                        if j < i {
                            assert(out@[j] == before[j]);
                        }
                    }
                    i = i + 1;
                }
                let ghost a = Seq::new(
                    out@.len(),
                    |k: int| if 0 <= k < out@.len() { (out@[k].0@, out@[k].1.model()) } else { (Seq::empty(), ValueModel::Null) },
                );
                let ghost b = Seq::new(
                    entries@.len(),
                    |k: int| if 0 <= k < entries@.len() { (entries@[k].0@, entries@[k].1.model()) } else { (Seq::empty(), ValueModel::Null) },
                );
                assert(a =~= b);
                let res = Value::Object(out);
                assert(res.model() is Object);
                assert(forall|k: int| 0 <= k < a.len() ==> res.model()->Object_0[k] == a[k]);
                assert(res.model()->Object_0 =~= a);
                assert(self.model() is Object);
                assert(forall|k: int| 0 <= k < b.len() ==> self.model()->Object_0[k] == b[k]);
                assert(self.model()->Object_0 =~= b);
                res
            },
        }
    }
}

/// A decimal point or an exponent mark.
pub open spec fn is_float_mark(c: char) -> bool {
    c == '.' || c == 'e' || c == 'E'
}

/// A number's text marked as a floating-point number: unchanged when it
/// has a decimal point or an exponent, else with `.0` added.
pub open spec fn float_text(t: Seq<char>) -> Seq<char> {
    if exists|i: int| 0 <= i < t.len() && #[trigger] is_float_mark(t[i]) {
        t
    } else {
        t + ".0"@
    }
}

/// A value with every number in it marked as a floating-point number.
pub open spec fn float_numbers(v: ValueModel) -> ValueModel
    decreases v,
{
    match v {
        ValueModel::Number(t) => ValueModel::Number(float_text(t)),
        ValueModel::Array(items) => ValueModel::Array(
            Seq::new(
                items.len(),
                |i: int|
                    if 0 <= i < items.len() {
                        float_numbers(items[i])
                    } else {
                        ValueModel::Null
                    },
            ),
        ),
        ValueModel::Object(entries) => ValueModel::Object(
            Seq::new(
                entries.len(),
                |i: int|
                    if 0 <= i < entries.len() {
                        (entries[i].0, float_numbers(entries[i].1))
                    } else {
                        (Seq::empty(), ValueModel::Null)
                    },
            ),
        ),
        _ => v,
    }
}

/// Marks a number's text as a floating-point number.
fn float_number_text(t: &String) -> (r: String)
    ensures
        r@ == float_text(t@),
{
    let ghost text = t@;
    let mut marked = false;
    for c in it: t.chars()
        invariant
            it.seq() == text,
            marked == (exists|j: int| 0 <= j < it.index() && #[trigger] is_float_mark(text[j])),
    {
        let ghost k = it.index() as int;
        assert(text[k] == c);
        if c == '.' || c == 'e' || c == 'E' {
            marked = true;
            assert(is_float_mark(text[k]));
        }
    }
    assert(text.take(text.len() as int) =~= text);
    if marked {
        t.clone()
    } else {
        let mut r = t.clone();
        crate::data::text::append(&mut r, ".0");
        r
    }
}

impl Value {
    /// A copy of the value with every number in it marked as a
    /// floating-point number.
    pub fn with_float_numbers(&self) -> (res: Value)
        ensures
            res@ == float_numbers(self@),
        decreases self,
    {
        match self {
            Value::Null => Value::Null,
            Value::Bool(b) => Value::Bool(*b),
            Value::Number(n) => Value::Number(float_number_text(n)),
            Value::String(s) => Value::String(s.clone()),
            Value::Array(items) => {
                let mut out: Vec<Value> = Vec::new();
                let mut i: usize = 0;
                while i < items.len()
                    invariant
                        i <= items@.len(),
                        *self == Value::Array(*items),
                        out@.len() == i,
                        forall|j: int| 0 <= j < i ==> #[trigger] out@[j].model() == float_numbers(items@[j].model()),
                    decreases items@.len() - i,
                {
                    proof {
                        vstd::std_specs::vec::axiom_vec_index_decreases(*items, i as int);
                        assert(decreases_to!(*self => self->Array_0));
                    }
                    let c = items[i].with_float_numbers();
                    out.push(c);
                    i = i + 1;
                }
                let ghost a = Seq::new(
                    out@.len(),
                    |k: int| if 0 <= k < out@.len() { out@[k].model() } else { ValueModel::Null },
                );
                let ghost m = self.model()->Array_0;
                let res = Value::Array(out);
                assert(self.model() is Array);
                assert(m.len() == items@.len());
                assert(forall|k: int| 0 <= k < m.len() ==> m[k] == items@[k].model());
                let ghost f = float_numbers(self.model())->Array_0;
                assert(f.len() == a.len());
                assert(forall|k: int| 0 <= k < a.len() ==> f[k] == float_numbers(m[k]));
                assert(res.model() is Array);
                assert(res.model()->Array_0.len() == a.len());
                assert(forall|k: int| 0 <= k < a.len() ==> res.model()->Array_0[k] == a[k]);
                assert(forall|k: int| 0 <= k < a.len() ==> a[k] == out@[k].model());
                assert forall|k: int| 0 <= k < a.len() implies res.model()->Array_0[k] == f[k] by {
                    assert(out@[k].model() == float_numbers(items@[k].model()));
                    assert(m[k] == items@[k].model());
                    assert(f[k] == float_numbers(m[k]));
                }
                assert(res.model()->Array_0 =~= f);
                res
            },
            Value::Object(entries) => {
                let mut out: Vec<(String, Value)> = Vec::new();
                let mut i: usize = 0;
                while i < entries.len()
                    invariant
                        i <= entries@.len(),
                        *self == Value::Object(*entries),
                        out@.len() == i,
                        forall|j: int| 0 <= j < i ==> #[trigger] out@[j].0@ == entries@[j].0@,
                        forall|j: int|
                            0 <= j < i ==> #[trigger] out@[j].1.model() == float_numbers(entries@[j].1.model()),
                    decreases entries@.len() - i,
                {
                    proof {
                        vstd::std_specs::vec::axiom_vec_index_decreases(*entries, i as int);
                        assert(decreases_to!(*self => self->Object_0));
                        assert(decreases_to!(entries@[i as int] => entries@[i as int].1));
                    }
                    let k = entries[i].0.clone();
                    let c = entries[i].1.with_float_numbers();
                    let ghost before = out@;
                    out.push((k, c));
                    assert forall|j: int| 0 <= j < i + 1 implies #[trigger] out@[j].0@ == entries@[j].0@ by {
                        if j < i {
                            assert(out@[j] == before[j]);
                        }
                    }
                    i = i + 1;
                }
                let ghost m = self.model()->Object_0;
                let res = Value::Object(out);
                assert(self.model() is Object);
                assert(m.len() == entries@.len());
                assert(forall|k: int| 0 <= k < m.len() ==> m[k] == (entries@[k].0@, entries@[k].1.model()));
                let ghost f = float_numbers(self.model())->Object_0;
                assert(f.len() == out@.len());
                assert(forall|k: int| 0 <= k < f.len() ==> f[k] == (m[k].0, float_numbers(m[k].1)));
                assert(res.model() is Object);
                assert(forall|k: int| 0 <= k < f.len() ==> res.model()->Object_0[k] == (out@[k].0@, out@[k].1.model()));
                assert(res.model()->Object_0 =~= f);
                res
            },
        }
    }

    /// The value as text: a string or number as its text, a boolean as
    /// `true` or `false`, an array or object as its JSON text, in which
    /// every number is written as a floating-point number; nothing for null.
    pub fn as_string(&self) -> (r: Option<String>)
        ensures
            match self@ {
                ValueModel::Null => r is None,
                ValueModel::Text(s) => r matches Some(x) && x@ == s,
                ValueModel::Number(s) => r matches Some(x) && x@ == s,
                ValueModel::Bool(b) => r matches Some(x) && x@ == (if b { "true"@ } else { "false"@ }),
                _ => r matches Some(x) && x@ == json_text(float_numbers(self@)),
            },
    {
        match self {
            Value::Null => None,
            Value::String(s) => Some(s.clone()),
            Value::Number(n) => Some(n.clone()),
            Value::Bool(b) => if *b {
                Some(owned("true"))
            } else {
                Some(owned("false"))
            },
            _ => Some(write_json(&self.with_float_numbers())),
        }
    }
}

impl Clone for Value {
    fn clone(&self) -> (res: Self)
        ensures
            res.model() == self.model(),
    {
        self.deep_copy()
    }
}

impl View for Value {
    type V = ValueModel;

    open spec fn view(&self) -> ValueModel {
        self.model()
    }
}

/// A record: named field values plus string metadata (source line, offset,
/// and the like).
#[derive(Debug, Clone, PartialEq)]
pub struct Record {
    fields: Table<Value>,
    /// Metadata about where the record came from.
    pub metadata: Table<String>,
}

impl Default for Record {
    fn default() -> (r: Record)
        ensures
            r@ == Map::<Seq<char>, ValueModel>::empty(),
            r.meta() == Map::<Seq<char>, Seq<char>>::empty(),
    {
        Record::new()
    }
}

impl View for Record {
    type V = Map<Seq<char>, ValueModel>;

    open spec fn view(&self) -> Map<Seq<char>, ValueModel> {
        self.field_table()@
    }
}

impl Record {
    /// The field table.
    pub closed spec fn field_table(&self) -> Table<Value> {
        self.fields
    }

    /// The field names in the record's own order.
    pub closed spec fn key_order(&self) -> Seq<Seq<char>> {
        key_seq(self.fields.entry_seq())
    }

    /// The metadata as a map.
    pub closed spec fn meta(&self) -> Map<Seq<char>, Seq<char>> {
        self.metadata@
    }

    /// Creates a new empty record.
    pub fn new() -> (r: Record)
        ensures
            r@ == Map::<Seq<char>, ValueModel>::empty(),
            r.meta() == Map::<Seq<char>, Seq<char>>::empty(),
    {
        Record { fields: Table::new(), metadata: Table::new() }
    }

    /// Sets a field, replacing an earlier value of the same name.
    pub fn insert(&mut self, key: &str, value: Value)
        ensures
            final(self)@ == old(self)@.insert(key@, value@),
            final(self).meta() == old(self).meta(),
    {
        self.fields.insert(crate::data::text::owned(key), value);
    }

    /// Sets a field whose name is already owned.
    pub fn insert_owned(&mut self, key: String, value: Value)
        ensures
            final(self)@ == old(self)@.insert(key@, value@),
            final(self).meta() == old(self).meta(),
    {
        self.fields.insert(key, value);
    }

    /// Gets a value by field name.
    pub fn get(&self, field: &str) -> (r: Option<&Value>)
        ensures
            r is Some <==> self@.contains_key(field@),
            r matches Some(v) ==> v@ == self@[field@],
    {
        self.fields.get(field)
    }

    /// Removes a field and returns its value.
    pub fn remove(&mut self, field: &str) -> (r: Option<Value>)
        ensures
            final(self)@ == old(self)@.remove(field@),
            final(self).meta() == old(self).meta(),
            r is Some <==> old(self)@.contains_key(field@),
            r matches Some(v) ==> v@ == old(self)@[field@],
    {
        self.fields.remove(field)
    }

    /// Returns true if the record contains the field.
    pub fn contains(&self, field: &str) -> (b: bool)
        ensures
            b == self@.contains_key(field@),
    {
        self.fields.contains(field)
    }

    /// Returns all field names, each once.
    pub fn fields(&self) -> (r: Vec<&String>)
        ensures
            r@.len() == self@.len(),
            r@.len() == self.key_order().len(),
            forall|i: int| 0 <= i < r@.len() ==> #[trigger] r@[i]@ == self.key_order()[i],
            forall|k: Seq<char>| self@.contains_key(k) ==> exists|i: int| 0 <= i < r@.len() && #[trigger] r@[i]@ == k,
            forall|i: int| 0 <= i < r@.len() ==> self@.contains_key(#[trigger] r@[i]@),
            forall|i: int, j: int| 0 <= i < r@.len() && 0 <= j < r@.len() && i != j ==> #[trigger] r@[i]@ != #[trigger] r@[j]@,
    {
        self.fields.keys()
    }

    /// The field-value pairs, for iteration.
    pub fn iter(&self) -> (r: &[(String, Value)])
        ensures
            keys_distinct(r@),
            table_map(r@) == self@,
    {
        self.fields.entries()
    }

    /// Takes the record apart into its field-value pairs and its metadata.
    pub fn into_parts(self) -> (r: (Vec<(String, Value)>, Table<String>))
        ensures
            keys_distinct(r.0@),
            table_map(r.0@) == self@,
            r.1@ == self.meta(),
    {
        (self.fields.into_entries(), self.metadata)
    }

    /// Returns the number of fields.
    pub fn len(&self) -> (n: usize)
        ensures
            n == self@.len(),
    {
        self.fields.len()
    }

    /// Returns true if the record has no fields.
    pub fn is_empty(&self) -> (b: bool)
        ensures
            b == (self@.len() == 0),
    {
        self.fields.is_empty()
    }

    /// Copies the metadata of `other` into this record, replacing its own.
    pub fn copy_metadata_from(&mut self, other: &Record)
        ensures
            final(self).meta() == other.meta(),
            final(self)@ == old(self)@,
    {
        self.metadata = other.metadata.copy();
    }

    /// Adds metadata, replacing an earlier value under the same key.
    pub fn add_metadata(&mut self, key: &str, value: String)
        ensures
            final(self).meta() == old(self).meta().insert(key@, value@),
            final(self)@ == old(self)@,
    {
        self.metadata.insert(crate::data::text::owned(key), value);
    }

    /// Builds a record from field-value pairs; a later pair wins over an
    /// earlier one with the same name.
    pub fn from_pairs(pairs: Vec<(String, Value)>) -> (r: Record)
        ensures
            r@ == table_map(pairs@),
            r.meta() == Map::<Seq<char>, Seq<char>>::empty(),
    {
        let mut r = Record::new();
        let ghost all = pairs@;
        for pair in it: pairs
            invariant
                it.seq() == all,
                r@ == table_map(all.take(it.index() as int)),
                r.meta() == Map::<Seq<char>, Seq<char>>::empty(),
        {
            let ghost idx = it.index() as int;
            assert(all.take(idx + 1).drop_last() =~= all.take(idx));
            let (k, v) = pair;
            r.insert_owned(k, v);
        }
        assert(all.take(all.len() as int) =~= all);
        r
    }
}

/// What a read gives back of a write: after a field is set, reading it
/// gives the value set, every other field reads as before, and the
/// metadata is untouched.
pub proof fn lemma_read_after_write(before: Record, after: Record, key: Seq<char>, value: ValueModel)
    requires
        after@ == before@.insert(key, value),
        after.meta() == before.meta(),
    ensures
        after@.contains_key(key),
        after@[key] == value,
        forall|k: Seq<char>| k != key ==> (after@.contains_key(k) == before@.contains_key(k) && (before@.contains_key(k) ==> after@[k] == before@[k])),
        after.meta() == before.meta(),
{
}

/// A removed field reads as absent, and every other field as before.
pub proof fn lemma_read_after_remove(before: Record, after: Record, key: Seq<char>)
    requires
        after@ == before@.remove(key),
    ensures
        !after@.contains_key(key),
        forall|k: Seq<char>| k != key ==> (after@.contains_key(k) == before@.contains_key(k) && (before@.contains_key(k) ==> after@[k] == before@[k])),
{
}

} // verus!
