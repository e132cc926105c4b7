//! Field mapping transformer: builds a target record from a source record
//! according to a mapping configuration.

use vstd::prelude::*;
use crate::config::mapping::{FieldMap, MappingConfig, MissingRequiredBehavior, UnmappedFieldBehavior};
use crate::data::record::{Record, Value, ValueModel, model_is_empty};
use crate::data::text::{append, join, join_spec, owned};
use crate::error::types::TransformError;
use crate::transform::traits::Transformer;

verus! {

/// The source names that a list of mappings reads.
pub open spec fn source_names(mappings: Seq<FieldMap>) -> Set<Seq<char>> {
    mappings.map_values(|m: FieldMap| m.source@).to_set()
}

/// The record's field names, in the record's order, that no mapping reads.
pub open spec fn unmapped_names(mappings: Seq<FieldMap>, keys: Seq<Seq<char>>) -> Seq<Seq<char>> {
    keys.filter(|k: Seq<char>| !source_names(mappings).contains(k))
}

/// The message of the error for unmapped fields.
pub open spec fn unmapped_message(names: Seq<Seq<char>>) -> Seq<char> {
    "Unmapped source fields: "@ + join_spec(names, ", "@)
}

/// The value that a mapping writes for a record with these fields: the
/// source value, else the default, else null; a default also replaces an
/// empty value. `None` when the field is required, missing and has no
/// default.
pub open spec fn mapped_value(mapping: FieldMap, fields: Map<Seq<char>, ValueModel>) -> Option<ValueModel> {
    let found: Option<ValueModel> = if fields.contains_key(mapping.source@) {
        Some(fields[mapping.source@])
    } else if mapping.default is Some {
        Some(ValueModel::Text(mapping.default->Some_0@))
    } else if mapping.required {
        None
    } else {
        Some(ValueModel::Null)
    };
    match found {
        Some(v) => if model_is_empty(v) && mapping.default is Some {
            Some(ValueModel::Text(mapping.default->Some_0@))
        } else {
            Some(v)
        },
        None => None,
    }
}

/// The fields that applying the mappings in order produces, or the source
/// name of the first required field that is missing.
pub open spec fn map_fields(mappings: Seq<FieldMap>, fields: Map<Seq<char>, ValueModel>) -> Result<
    Map<Seq<char>, ValueModel>,
    Seq<char>,
>
    decreases mappings.len(),
{
    if mappings.len() == 0 {
        Ok(Map::empty())
    } else {
        match map_fields(mappings.drop_last(), fields) {
            Ok(acc) => match mapped_value(mappings.last(), fields) {
                Some(v) => Ok(acc.insert(mappings.last().target@, v)),
                None => Err(mappings.last().source@),
            },
            Err(missing) => Err(missing),
        }
    }
}

/// The error is a missing-required-field error naming `field`.
pub open spec fn is_missing_field(e: TransformError, field: Seq<char>) -> bool {
    e matches TransformError::MissingRequiredField { field: f } && f@ == field
}

/// The error is a failure with message `msg`.
pub open spec fn is_failure(e: TransformError, msg: Seq<char>) -> bool {
    e matches TransformError::TransformFailed(m) && m@ == msg
}

/// Field mapper transformer.
///
/// Maps source fields to target fields according to the mapping
/// configuration; handles required fields, default values and unmapped
/// fields. The target record keeps the source record's metadata.
pub struct FieldMapper {
    config: MappingConfig,
}

impl FieldMapper {
    /// The mapping configuration.
    pub closed spec fn config_of(&self) -> MappingConfig {
        self.config
    }

    /// Creates a new field mapper from configuration.
    pub fn new(config: MappingConfig) -> (m: Self)
        ensures
            m.config_of() == config,
    {
        FieldMapper { config }
    }

    /// Creates a field mapper from a list of field maps with default
    /// settings: unmapped fields are ignored, a missing required field is an
    /// error.
    pub fn from_fields(fields: Vec<FieldMap>) -> (m: Self)
        ensures
            m.config_of().fields == fields,
            m.config_of().unmapped_fields == UnmappedFieldBehavior::Ignore,
            m.config_of().missing_required == MissingRequiredBehavior::Error,
    {
        FieldMapper {
            config: MappingConfig {
                fields,
                unmapped_fields: UnmappedFieldBehavior::Ignore,
                missing_required: MissingRequiredBehavior::Error,
            },
        }
    }

    /// Whether some mapping reads the field `key`.
    fn is_mapped(&self, key: &String) -> (b: bool)
        ensures
            b == source_names(self.config.fields@).contains(key@),
    {
        let ghost sources = self.config.fields@.map_values(|m: FieldMap| m.source@);
        let mut i: usize = 0;
        while i < self.config.fields.len()
            invariant
                i <= self.config.fields@.len(),
                sources == self.config.fields@.map_values(|m: FieldMap| m.source@),
                forall|j: int| 0 <= j < i ==> sources[j] != key@,
            decreases self.config.fields@.len() - i,
        {
            if self.config.fields[i].source == *key {
                assert(sources[i as int] == key@);
                return true;
            }
            i = i + 1;
        }
        assert forall|x: Seq<char>| sources.contains(x) implies x != key@ by {
            let j = choose|j: int| 0 <= j < sources.len() && sources[j] == x;
        }
        false
    }

    /// The names of the record's fields that no mapping reads, in the
    /// record's order.
    fn unmapped_of(&self, source_record: &Record) -> (r: Vec<String>)
        ensures
            r@.map_values(|s: String| s@) == unmapped_names(self.config.fields@, source_record.key_order()),
    {
        let keys = source_record.fields();
        let ghost order = source_record.key_order();
        let mut out: Vec<String> = Vec::new();
        let mut i: usize = 0;
        while i < keys.len()
            invariant
                i <= keys@.len(),
                keys@.len() == order.len(),
                forall|j: int| 0 <= j < keys@.len() ==> #[trigger] keys@[j]@ == order[j],
                out@.map_values(|s: String| s@) == unmapped_names(self.config.fields@, order.take(i as int)),
            decreases keys@.len() - i,
        {
            let key: &String = keys[i];
            let mapped = self.is_mapped(key);
            proof {
                reveal(Seq::filter);
                assert(order.take(i + 1).drop_last() =~= order.take(i as int));
                assert(order.take(i + 1).last() == key@);
            }
            if !mapped {
                let ghost before = out@;
                out.push(key.clone());
                assert(out@.map_values(|s: String| s@) =~= before.map_values(|s: String| s@).push(key@));
            }
            i = i + 1;
        }
        assert(order.take(order.len() as int) =~= order);
        out
    }

    /// Checks the record for fields that no mapping reads; under the `Error`
    /// behavior their presence is a failure that names them.
    pub fn handle_unmapped_fields(&self, source_record: &Record) -> (r: Result<(), TransformError>)
        ensures
            r is Err <==> (self.config_of().unmapped_fields == UnmappedFieldBehavior::Error
                && unmapped_names(self.config_of().fields@, source_record.key_order()).len() > 0),
            r matches Err(e) ==> is_failure(e, unmapped_message(unmapped_names(self.config_of().fields@, source_record.key_order()))),
    {
        let unmapped = self.unmapped_of(source_record);
        if unmapped.len() > 0 {
            match self.config.unmapped_fields {
                UnmappedFieldBehavior::Error => {
                    let mut msg = owned("Unmapped source fields: ");
                    let listed = join(&unmapped, ", ");
                    append(&mut msg, listed.as_str());
                    return Err(TransformError::TransformFailed(msg));
                },
                _ => {},
            }
        }
        Ok(())
    }

    /// Applies a single field mapping to a record.
    pub fn apply_mapping(&self, source_record: &Record, target_record: &mut Record, mapping: &FieldMap) -> (r: Result<
        (),
        TransformError,
    >)
        ensures
            final(target_record).meta() == old(target_record).meta(),
            match mapped_value(*mapping, source_record@) {
                Some(v) => r is Ok && final(target_record)@ == old(target_record)@.insert(mapping.target@, v),
                None => r matches Err(e) && is_missing_field(e, mapping.source@) && final(target_record)@ == old(
                    target_record,
                )@,
            },
    {
        let value = match source_record.get(mapping.source.as_str()) {
            Some(val) => val.clone(),
            None => match &mapping.default {
                Some(default) => Value::String(default.clone()),
                None => {
                    if mapping.required {
                        return Err(TransformError::MissingRequiredField { field: mapping.source.clone() });
                    }
                    Value::Null
                },
            },
        };
        let final_value = match &mapping.default {
            Some(default) => if value.is_empty() {
                Value::String(default.clone())
            } else {
                value
            },
            None => value,
        };
        target_record.insert(mapping.target.as_str(), final_value);
        Ok(())
    }
}

impl Transformer for FieldMapper {
    open spec fn transforms(&self, input: Record, output: Result<Record, TransformError>) -> bool {
        let cfg = self.config_of();
        let unmapped = unmapped_names(cfg.fields@, input.key_order());
        if cfg.unmapped_fields == UnmappedFieldBehavior::Error && unmapped.len() > 0 {
            output matches Err(e) && is_failure(e, unmapped_message(unmapped))
        } else {
            match map_fields(cfg.fields@, input@) {
                Ok(fields) => output matches Ok(r) && r@ == fields && r.meta() == input.meta(),
                Err(missing) => output matches Err(e) && is_missing_field(e, missing),
            }
        }
    }

    fn name(&self) -> (r: &'static str)
        ensures
            r@ == "field_mapper"@,
    {
        "field_mapper"
    }

    fn transform(&self, source_record: Record) -> (r: Result<Record, TransformError>) {
        match self.handle_unmapped_fields(&source_record) {
            Ok(()) => {},
            Err(e) => {
                return Err(e);
            },
        }
        let mut target_record = Record::new();
        target_record.copy_metadata_from(&source_record);
        let ghost mappings = self.config.fields@;
        let mut i: usize = 0;
        while i < self.config.fields.len()
            invariant
                i <= mappings.len(),
                mappings == self.config.fields@,
                map_fields(mappings.take(i as int), source_record@) == Ok::<Map<Seq<char>, ValueModel>, Seq<char>>(
                    target_record@,
                ),
                target_record.meta() == source_record.meta(),
                !(self.config.unmapped_fields == UnmappedFieldBehavior::Error
                    && unmapped_names(mappings, source_record.key_order()).len() > 0),
            decreases mappings.len() - i,
        {
            assert(mappings.take(i + 1).drop_last() =~= mappings.take(i as int));
            match self.apply_mapping(&source_record, &mut target_record, &self.config.fields[i]) {
                Ok(()) => {},
                Err(e) => {
                    proof {
                        lemma_map_fields_failure_propagates(mappings, i + 1, source_record@, mappings[i as int].source@);
                    }
                    return Err(e);
                },
            }
            i = i + 1;
        }
        assert(mappings.take(mappings.len() as int) =~= mappings);
        Ok(target_record)
    }
}

/// Once a prefix of the mappings fails, all of them fail the same way.
pub proof fn lemma_map_fields_failure_propagates(
    mappings: Seq<FieldMap>,
    j: int,
    fields: Map<Seq<char>, ValueModel>,
    missing: Seq<char>,
)
    requires
        0 <= j <= mappings.len(),
        map_fields(mappings.take(j), fields) == Err::<Map<Seq<char>, ValueModel>, Seq<char>>(missing),
    ensures
        map_fields(mappings, fields) == Err::<Map<Seq<char>, ValueModel>, Seq<char>>(missing),
    decreases mappings.len() - j,
{
    if j < mappings.len() {
        assert(mappings.take(j + 1).drop_last() =~= mappings.take(j));
        lemma_map_fields_failure_propagates(mappings, j + 1, fields, missing);
    } else {
        assert(mappings.take(j) =~= mappings);
    }
}

/// The target names that a list of mappings writes.
pub open spec fn target_names(mappings: Seq<FieldMap>) -> Set<Seq<char>> {
    mappings.map_values(|m: FieldMap| m.target@).to_set()
}

/// When the mappings succeed, the target record holds exactly the fields
/// that they name as targets.
pub proof fn lemma_mapped_fields_are_targets(mappings: Seq<FieldMap>, fields: Map<Seq<char>, ValueModel>)
    requires
        map_fields(mappings, fields) is Ok,
    ensures
        map_fields(mappings, fields)->Ok_0.dom() == target_names(mappings),
    decreases mappings.len(),
{
    if mappings.len() == 0 {
        assert(target_names(mappings) =~= Set::<Seq<char>>::empty());
    } else {
        let p = mappings.drop_last();
        lemma_mapped_fields_are_targets(p, fields);
        let t = mappings.last().target@;
        assert forall|x: Seq<char>| target_names(mappings).contains(x) <==> target_names(p).insert(t).contains(x) by {
            let all = mappings.map_values(|m: FieldMap| m.target@);
            let front = p.map_values(|m: FieldMap| m.target@);
            if target_names(mappings).contains(x) {
                let i = choose|i: int| 0 <= i < all.len() && all[i] == x;
                if i < p.len() {
                    assert(front[i] == x);
                }
            }
            if target_names(p).contains(x) {
                let i = choose|i: int| 0 <= i < front.len() && front[i] == x;
                assert(all[i] == x);
            }
            if x == t {
                assert(all[all.len() - 1] == x);
            }
        }
        assert(target_names(mappings) =~= target_names(p).insert(t));
    }
}

/// A mapping fails exactly when its field is required, has no default and
/// is missing from the record.
pub proof fn lemma_mapping_fails_iff(mapping: FieldMap, fields: Map<Seq<char>, ValueModel>)
    ensures
        mapped_value(mapping, fields) is None <==> (mapping.required && mapping.default is None
            && !fields.contains_key(mapping.source@)),
{
}

/// A mapping with a default never fails, and writes either its default or a
/// value that is not empty.
pub proof fn lemma_default_fills_empty(mapping: FieldMap, fields: Map<Seq<char>, ValueModel>)
    requires
        mapping.default is Some,
    ensures
        mapped_value(mapping, fields) matches Some(v) && (v == ValueModel::Text(mapping.default->Some_0@)
            || !model_is_empty(v)),
{
}

/// The mappings fail exactly when one of them does (is required, has no
/// default, and its field is missing).
pub proof fn lemma_map_fields_fails_iff(mappings: Seq<FieldMap>, fields: Map<Seq<char>, ValueModel>)
    ensures
        map_fields(mappings, fields) is Err <==> exists|j: int|
            0 <= j < mappings.len() && #[trigger] mapped_value(mappings[j], fields) is None,
    decreases mappings.len(),
{
    if mappings.len() > 0 {
        let p = mappings.drop_last();
        let n = mappings.len() - 1;
        lemma_map_fields_fails_iff(p, fields);
        if map_fields(mappings, fields) is Err {
            if map_fields(p, fields) is Err {
                let j = choose|j: int| 0 <= j < p.len() && #[trigger] mapped_value(p[j], fields) is None;
                assert(mapped_value(mappings[j], fields) is None);
            } else {
                assert(mapped_value(mappings[n], fields) is None);
            }
        } else {
            assert forall|j: int| 0 <= j < mappings.len() implies !(#[trigger] mapped_value(mappings[j], fields) is None) by {
                if j < n {
                    assert(p[j] == mappings[j]);
                    assert(!(mapped_value(p[j], fields) is None));
                }
            }
        }
    }
}

/// The mapping at `j` is the last one that names its target.
pub open spec fn last_for_target(mappings: Seq<FieldMap>, j: int) -> bool {
    forall|l: int| j < l < mappings.len() ==> #[trigger] mappings[l].target@ != mappings[j].target@
}

/// When the mappings succeed, each target holds the value that the last
/// mapping naming it writes.
pub proof fn lemma_last_mapping_wins(mappings: Seq<FieldMap>, fields: Map<Seq<char>, ValueModel>, j: int)
    requires
        map_fields(mappings, fields) is Ok,
        0 <= j < mappings.len(),
        last_for_target(mappings, j),
    ensures
        map_fields(mappings, fields)->Ok_0.contains_key(mappings[j].target@),
        mapped_value(mappings[j], fields) is Some,
        map_fields(mappings, fields)->Ok_0[mappings[j].target@] == mapped_value(mappings[j], fields)->Some_0,
    decreases mappings.len(),
{
    let n = mappings.len() - 1;
    let p = mappings.drop_last();
    if j < n {
        assert(mappings[n].target@ != mappings[j].target@);
        assert(last_for_target(p, j)) by {
            assert forall|l: int| j < l < p.len() implies #[trigger] p[l].target@ != p[j].target@ by {
                assert(mappings[l].target@ != mappings[j].target@);
            }
        }
        assert(p[j] == mappings[j]);
        lemma_last_mapping_wins(p, fields, j);
    }
}

/// What the field mapper gives, whatever its missing-required behavior:
/// an error exactly when unmapped fields are an error and the record has
/// one, or a required mapping without a default finds its field missing;
/// otherwise a record with the source record's metadata whose fields are
/// exactly the mappings' targets, each holding what the last mapping
/// naming it writes.
pub proof fn lemma_transform_outcome(mapper: FieldMapper, input: Record, output: Result<Record, TransformError>)
    requires
        mapper.transforms(input, output),
    ensures
        output is Err <==> ((mapper.config_of().unmapped_fields == UnmappedFieldBehavior::Error && unmapped_names(
            mapper.config_of().fields@,
            input.key_order(),
        ).len() > 0) || exists|j: int|
            0 <= j < mapper.config_of().fields@.len() && #[trigger] mapped_value(mapper.config_of().fields@[j], input@) is None),
        output matches Ok(r) ==> r.meta() == input.meta() && r@.dom() == target_names(mapper.config_of().fields@)
            && forall|j: int|
            0 <= j < mapper.config_of().fields@.len() && last_for_target(mapper.config_of().fields@, j) ==> r@[(
            #[trigger] mapper.config_of().fields@[j]).target@] == mapped_value(mapper.config_of().fields@[j], input@)->Some_0,
{
    let ms = mapper.config_of().fields@;
    lemma_map_fields_fails_iff(ms, input@);
    if map_fields(ms, input@) is Ok {
        lemma_mapped_fields_are_targets(ms, input@);
        assert forall|j: int| 0 <= j < ms.len() && last_for_target(ms, j) implies map_fields(ms, input@)->Ok_0[(
            #[trigger] ms[j]).target@] == mapped_value(ms[j], input@)->Some_0 by {
            lemma_last_mapping_wins(ms, input@, j);
        }
    }
}

/// A mapping whose source field is present with a value that is not empty
/// writes exactly that value, whether or not it has a default; a default is
/// written only for a missing or empty field.
pub proof fn lemma_present_value_kept(mapping: FieldMap, fields: Map<Seq<char>, ValueModel>)
    ensures
        fields.contains_key(mapping.source@) && !model_is_empty(fields[mapping.source@]) ==> mapped_value(
            mapping,
            fields,
        ) == Some(fields[mapping.source@]),
        fields.contains_key(mapping.source@) && model_is_empty(fields[mapping.source@]) && mapping.default is Some
            ==> mapped_value(mapping, fields) == Some(ValueModel::Text(mapping.default->Some_0@)),
        !fields.contains_key(mapping.source@) ==> mapped_value(mapping, fields) == (match mapping.default {
            Some(d) => Some(ValueModel::Text(d@)),
            None => if mapping.required {
                None
            } else {
                Some(ValueModel::Null)
            },
        }),
        fields.contains_key(mapping.source@) && mapping.default is None ==> mapped_value(mapping, fields) == Some(
            fields[mapping.source@],
        ),
{
}

/// The field mapper keeps a present, non-empty source value: in what it
/// gives, the target of the last mapping naming it holds the source
/// record's value for that mapping's source field, defaults aside.
pub proof fn lemma_transform_keeps_present_values(
    mapper: FieldMapper,
    input: Record,
    output: Result<Record, TransformError>,
    j: int,
)
    requires
        mapper.transforms(input, output),
        output is Ok,
        0 <= j < mapper.config_of().fields@.len(),
        last_for_target(mapper.config_of().fields@, j),
        input@.contains_key(mapper.config_of().fields@[j].source@),
        !model_is_empty(input@[mapper.config_of().fields@[j].source@]),
    ensures
        output->Ok_0@.contains_key(mapper.config_of().fields@[j].target@),
        output->Ok_0@[mapper.config_of().fields@[j].target@] == input@[mapper.config_of().fields@[j].source@],
{
    let ms = mapper.config_of().fields@;
    lemma_transform_outcome(mapper, input, output);
    lemma_present_value_kept(ms[j], input@);
    lemma_map_fields_fails_iff(ms, input@);
    if map_fields(ms, input@) is Ok {
        lemma_last_mapping_wins(ms, input@, j);
    }
}

} // verus!
