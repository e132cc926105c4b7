//! Field filter transformer: keeps or removes named fields.

use vstd::prelude::*;
use crate::data::record::{Record, ValueModel};
use crate::data::table::table_map;
use crate::error::types::TransformError;
use crate::transform::traits::Transformer;

verus! {

/// Filter mode determines whether to keep or remove fields.
#[derive(Clone, Copy, Debug, PartialEq, Eq, Structural)]
pub enum FilterMode {
    /// Keep only the specified fields.
    Keep,
    /// Remove the specified fields.
    Remove,
}

/// The fields that a filter lets through: under `Keep` those named, under
/// `Remove` those not named.
pub open spec fn filtered(mode: FilterMode, names: Set<Seq<char>>, fields: Map<Seq<char>, ValueModel>) -> Map<
    Seq<char>,
    ValueModel,
> {
    match mode {
        FilterMode::Keep => fields.restrict(names),
        FilterMode::Remove => fields.remove_keys(names),
    }
}

/// The texts of a list of names, as a set.
pub open spec fn name_set(names: Seq<String>) -> Set<Seq<char>> {
    names.map_values(|s: String| s@).to_set()
}

/// Field filter transformer.
///
/// Keeps only specified fields or removes specified fields from records.
/// The filtered record carries no metadata.
#[derive(Clone)]
pub struct FieldFilter {
    mode: FilterMode,
    fields: Vec<String>,
}

impl FieldFilter {
    /// The filter's mode.
    pub closed spec fn mode_of(&self) -> FilterMode {
        self.mode
    }

    /// The names the filter is given.
    pub closed spec fn names(&self) -> Set<Seq<char>> {
        name_set(self.fields@)
    }

    /// Creates a new field filter that keeps only specified fields.
    pub fn keep(fields: Vec<String>) -> (f: Self)
        ensures
            f.mode_of() == FilterMode::Keep,
            f.names() == name_set(fields@),
    {
        FieldFilter { mode: FilterMode::Keep, fields }
    }

    /// Creates a new field filter that removes specified fields.
    pub fn remove(fields: Vec<String>) -> (f: Self)
        ensures
            f.mode_of() == FilterMode::Remove,
            f.names() == name_set(fields@),
    {
        FieldFilter { mode: FilterMode::Remove, fields }
    }

    /// Whether `key` is one of the filter's names.
    fn names_contain(&self, key: &String) -> (b: bool)
        ensures
            b == self.names().contains(key@),
    {
        let ghost texts = self.fields@.map_values(|s: String| s@);
        let mut i: usize = 0;
        while i < self.fields.len()
            invariant
                i <= self.fields@.len(),
                texts == self.fields@.map_values(|s: String| s@),
                forall|j: int| 0 <= j < i ==> texts[j] != key@,
            decreases self.fields@.len() - i,
        {
            if self.fields[i] == *key {
                assert(texts[i as int] == key@);
                return true;
            }
            i = i + 1;
        }
        assert forall|x: Seq<char>| texts.contains(x) implies x != key@ by {
            let j = choose|j: int| 0 <= j < texts.len() && texts[j] == x;
        }
        false
    }
}

impl Transformer for FieldFilter {
    open spec fn transforms(&self, input: Record, output: Result<Record, TransformError>) -> bool {
        &&& output is Ok
        &&& output->Ok_0@ == filtered(self.mode_of(), self.names(), input@)
        &&& output->Ok_0.meta() == Map::<Seq<char>, Seq<char>>::empty()
    }

    fn name(&self) -> (r: &'static str)
        ensures
            r@ == "field_filter"@,
    {
        "field_filter"
    }

    fn transform(&self, record: Record) -> (r: Result<Record, TransformError>) {
        let ghost input = record@;
        let (entries, _metadata) = record.into_parts();
        let ghost all = entries@;
        let ghost names = self.names();
        let mut result = Record::new();
        for entry in it: entries
            invariant
                it.seq() == all,
                table_map(all) == input,
                names == self.names(),
                result@ == filtered(self.mode_of(), names, table_map(all.take(it.index() as int))),
                result.meta() == Map::<Seq<char>, Seq<char>>::empty(),
        {
            let ghost idx = it.index() as int;
            let ghost before = table_map(all.take(idx));
            assert(all.take(idx + 1).drop_last() =~= all.take(idx));
            assert(table_map(all.take(idx + 1)) == before.insert(entry.0@, entry.1@));
            let (key, value) = entry;
            let named = self.names_contain(&key);
            let wanted = match self.mode {
                FilterMode::Keep => named,
                FilterMode::Remove => !named,
            };
            if wanted {
                result.insert_owned(key, value);
                assert(result@ =~= filtered(self.mode_of(), names, before.insert(key@, value@)));
            } else {
                assert(result@ =~= filtered(self.mode_of(), names, before.insert(key@, value@)));
            }
        }
        assert(all.take(all.len() as int) =~= all);
        Ok(result)
    }
}

/// Keeping and removing the same names split a record's fields in two:
/// nothing is in both results, and together they hold every field.
pub proof fn lemma_keep_remove_partition(names: Set<Seq<char>>, fields: Map<Seq<char>, ValueModel>)
    ensures
        filtered(FilterMode::Keep, names, fields).dom().disjoint(filtered(FilterMode::Remove, names, fields).dom()),
        filtered(FilterMode::Keep, names, fields).union_prefer_right(filtered(FilterMode::Remove, names, fields))
            == fields,
{
    assert(filtered(FilterMode::Keep, names, fields).union_prefer_right(filtered(FilterMode::Remove, names, fields))
        =~= fields);
}

} // verus!
