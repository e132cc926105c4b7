//! A registry of transformers by name, and a builder of chains from it.

use vstd::prelude::*;
use std::sync::Arc;
use crate::data::record::Record;
use crate::data::table::Table;
use crate::data::text::{append, owned};
use crate::error::types::TransformError;
use crate::transform::traits::{
    SharedTransformer,
    Transformer,
    batch_view,
    chain_batch_transforms,
    chain_transforms,
    run_chain,
    run_chain_batch,
    share,
};

verus! {

impl View for SharedTransformer {
    type V = SharedTransformer;

    open spec fn view(&self) -> SharedTransformer {
        *self
    }
}

/// The message of the error for a name that is not registered.
pub open spec fn not_found_message(name: Seq<char>) -> Seq<char> {
    "Transformer '"@ + name + "' not found"@
}

/// Registry of available transformers, each under its own name.
pub struct TransformerRegistry {
    transformers: Table<SharedTransformer>,
}

impl View for TransformerRegistry {
    type V = Map<Seq<char>, SharedTransformer>;

    closed spec fn view(&self) -> Map<Seq<char>, SharedTransformer> {
        self.transformers@
    }
}

impl TransformerRegistry {
    /// Creates a new empty transformer registry.
    pub fn new() -> (r: Self)
        ensures
            r@ == Map::<Seq<char>, SharedTransformer>::empty(),
    {
        TransformerRegistry { transformers: Table::new() }
    }

    /// Registers a transformer under its name, replacing one registered
    /// under the same name.
    pub fn register(&mut self, transformer: SharedTransformer)
        ensures
            exists|name: Seq<char>| final(self)@ == old(self)@.insert(name, transformer),
    {
        let name = owned(transformer.inner.name());
        let ghost key = name@;
        let ghost entry = transformer;
        self.transformers.insert(name, transformer);
        assert(self@ == old(self)@.insert(key, entry));
    }

    /// Gets a transformer by name.
    pub fn get(&self, name: &str) -> (r: Option<SharedTransformer>)
        ensures
            r is Some <==> self@.contains_key(name@),
            r matches Some(t) ==> t == self@[name@],
    {
        match self.transformers.get(name) {
            Some(t) => Some(share(t)),
            None => None,
        }
    }

    /// Checks if a transformer is registered.
    pub fn has(&self, name: &str) -> (b: bool)
        ensures
            b == self@.contains_key(name@),
    {
        self.transformers.contains(name)
    }

    /// Lists all registered transformer names, each once.
    pub fn list(&self) -> (r: Vec<String>)
        ensures
            r@.len() == self@.len(),
            forall|k: Seq<char>| self@.contains_key(k) ==> exists|i: int| 0 <= i < r@.len() && #[trigger] r@[i]@ == k,
            forall|i: int| 0 <= i < r@.len() ==> self@.contains_key(#[trigger] r@[i]@),
            forall|i: int, j: int| 0 <= i < r@.len() && 0 <= j < r@.len() && i != j ==> #[trigger] r@[i]@ != #[trigger] r@[j]@,
    {
        let keys = self.transformers.keys();
        let mut out: Vec<String> = Vec::new();
        let mut i: usize = 0;
        while i < keys.len()
            invariant
                i <= keys@.len(),
                out@.len() == i,
                forall|j: int| 0 <= j < i ==> #[trigger] out@[j]@ == keys@[j]@,
            decreases keys@.len() - i,
        {
            out.push(keys[i].clone());
            i = i + 1;
        }
        assert forall|k: Seq<char>| self@.contains_key(k) implies exists|i: int| 0 <= i < out@.len() && #[trigger] out@[i]@ == k by {
            let i = choose|i: int| 0 <= i < keys@.len() && #[trigger] keys@[i]@ == k;
            assert(out@[i]@ == k);
        }
        assert forall|i: int, j: int| 0 <= i < out@.len() && 0 <= j < out@.len() && i != j implies #[trigger] out@[i]@ != #[trigger] out@[j]@ by {
            assert(keys@[i]@ != keys@[j]@);
        }
        assert forall|i: int| 0 <= i < out@.len() implies self@.contains_key(#[trigger] out@[i]@) by {
            assert(self@.contains_key(keys@[i]@));
        }
        out
    }

    /// Removes a transformer by name, returning it if it was registered.
    pub fn remove(&mut self, name: &str) -> (r: Option<SharedTransformer>)
        ensures
            final(self)@ == old(self)@.remove(name@),
            r is Some <==> old(self)@.contains_key(name@),
            r matches Some(t) ==> t == old(self)@[name@],
    {
        self.transformers.remove(name)
    }

    /// Returns the number of registered transformers.
    pub fn len(&self) -> (n: usize)
        ensures
            n == self@.len(),
    {
        self.transformers.len()
    }

    /// Returns true if no transformers are registered.
    pub fn is_empty(&self) -> (b: bool)
        ensures
            b == (self@.len() == 0),
    {
        self.transformers.is_empty()
    }

    /// Clears all registered transformers.
    pub fn clear(&mut self)
        ensures
            final(self)@ == Map::<Seq<char>, SharedTransformer>::empty(),
    {
        self.transformers = Table::new();
    }
}

impl Default for TransformerRegistry {
    fn default() -> (r: Self)
        ensures
            r@ == Map::<Seq<char>, SharedTransformer>::empty(),
    {
        Self::new()
    }
}

/// Builder for creating transformer chains from a registry.
pub struct TransformerChainBuilder {
    registry: Arc<TransformerRegistry>,
    transformers: Vec<SharedTransformer>,
}

impl TransformerChainBuilder {
    /// The transformers added so far, in order.
    pub closed spec fn steps(&self) -> Seq<SharedTransformer> {
        self.transformers@
    }

    /// The registry that names are looked up in.
    pub closed spec fn registry_view(&self) -> Map<Seq<char>, SharedTransformer> {
        self.registry@
    }

    /// Creates a new builder with the given registry.
    pub fn new(registry: Arc<TransformerRegistry>) -> (b: Self)
        ensures
            b.steps().len() == 0,
            b.registry_view() == registry@,
    {
        TransformerChainBuilder { registry, transformers: Vec::new() }
    }

    /// Adds the transformer registered under `name`; fails when no
    /// transformer is registered under it.
    pub fn with_transformer(self, name: &str) -> (r: Result<Self, TransformError>)
        ensures
            self.registry_view().contains_key(name@) <==> r is Ok,
            r matches Ok(b) ==> b.steps() == self.steps().push(self.registry_view()[name@])
                && b.registry_view() == self.registry_view(),
            r matches Err(e) ==> e matches TransformError::TransformFailed(m) && m@ == not_found_message(name@),
    {
        match self.registry.get(name) {
            Some(t) => {
                let mut transformers = self.transformers;
                transformers.push(t);
                Ok(TransformerChainBuilder { registry: self.registry, transformers })
            },
            None => {
                let mut msg = owned("Transformer '");
                append(&mut msg, name);
                append(&mut msg, "' not found");
                Err(TransformError::TransformFailed(msg))
            },
        }
    }

    /// Adds a transformer instance directly.
    pub fn with_transformer_instance(self, transformer: SharedTransformer) -> (b: Self)
        ensures
            b.steps() == self.steps().push(transformer),
            b.registry_view() == self.registry_view(),
    {
        let mut transformers = self.transformers;
        transformers.push(transformer);
        TransformerChainBuilder { registry: self.registry, transformers }
    }

    /// Transforms a record through all configured transformers.
    pub fn transform(&self, record: Record) -> (r: Result<Record, TransformError>)
        ensures
            chain_transforms(self.steps(), record, r),
    {
        run_chain(&self.transformers, record)
    }

    /// Batch transforms records through all configured transformers.
    pub fn transform_batch(&self, records: Vec<Record>) -> (r: Result<Vec<Record>, TransformError>)
        ensures
            chain_batch_transforms(self.steps(), records@, batch_view(r)),
    {
        run_chain_batch(&self.transformers, records)
    }
}

} // verus!
