//! The transformer interface and transformer chains.

use vstd::prelude::*;
use std::sync::Arc;
use crate::data::record::Record;
use crate::error::types::TransformError;

verus! {

/// A transformation of records.
///
/// `transforms` states which outputs `transform` may produce for an input;
/// the transformers of this crate define it exactly, and an implementation
/// that does not define it claims nothing about its outputs.
pub trait Transformer: Send + Sync {
    /// `output` is a result that `transform` may give for `input`.
    open spec fn transforms(&self, input: Record, output: Result<Record, TransformError>) -> bool {
        true
    }

    /// Unique identifier for this transformer.
    fn name(&self) -> &'static str;

    /// Transforms a single record.
    fn transform(&self, record: Record) -> (r: Result<Record, TransformError>)
        ensures
            self.transforms(record, r),
    ;

    /// Transforms records one by one, stopping at the first failure.
    fn transform_batch(&self, records: Vec<Record>) -> (r: Result<Vec<Record>, TransformError>)
        ensures
            match r {
                Ok(outs) => outs@.len() == records@.len() && forall|i: int|
                    0 <= i < records@.len() ==> self.transforms(records@[i], Ok(#[trigger] outs@[i])),
                Err(e) => exists|k: int|
                    0 <= k < records@.len() && #[trigger] self.transforms(records@[k], Err(e))
                    && prefix_succeeds(|a: Record, b: Result<Record, TransformError>| self.transforms(a, b), records@, k),
            },
    {
        let ghost inputs = records@;
        let mut out: Vec<Record> = Vec::new();
        for record in it: records
            invariant
                it.seq() == inputs,
                inputs == records@,
                out@.len() == it.index(),
                forall|j: int| 0 <= j < out@.len() ==> self.transforms(inputs[j], Ok(#[trigger] out@[j])),
        {
            let ghost k = it.index() as int;
            match self.transform(record) {
                Ok(t) => {
                    out.push(t);
                },
                Err(e) => {
                    proof {
                        let rel = |a: Record, b: Result<Record, TransformError>| self.transforms(a, b);
                        assert forall|j: int| 0 <= j < k implies #[trigger] succeeds(rel, inputs[j]) by {
                            assert(rel(inputs[j], Ok(out@[j])));
                        }
                        assert(prefix_succeeds(rel, inputs, k));
                    }
                    return Err(e);
                },
            }
        }
        Ok(out)
    }
}

/// Some successful output exists for `input` under the relation `rel`.
pub open spec fn succeeds(rel: spec_fn(Record, Result<Record, TransformError>) -> bool, input: Record) -> bool {
    exists|o: Record| #[trigger] rel(input, Ok(o))
}

/// Every one of the first `k` inputs has some successful output under the
/// relation `rel`.
pub open spec fn prefix_succeeds(
    rel: spec_fn(Record, Result<Record, TransformError>) -> bool,
    inputs: Seq<Record>,
    k: int,
) -> bool {
    forall|j: int| 0 <= j < k ==> #[trigger] succeeds(rel, inputs[j])
}

/// A shared handle to a transformer.
pub struct SharedTransformer {
    pub inner: Arc<dyn Transformer>,
}

/// Another handle to the same transformer.
///
/// Trusted: `Arc::clone` makes a new pointer to the same allocation.
#[verifier::external_body]
pub(crate) fn share(t: &SharedTransformer) -> (r: SharedTransformer)
    ensures
        r == *t,
{
    SharedTransformer { inner: Arc::clone(&t.inner) }
}

/// A chain without transformers gives back its record unchanged, and a
/// chain of one transformer gives what that transformer gives.
pub proof fn lemma_short_chains(t: SharedTransformer, input: Record, output: Result<Record, TransformError>)
    ensures
        chain_transforms(Seq::empty(), input, output) <==> output == Ok::<Record, TransformError>(input),
        chain_transforms(seq![t], input, output) <==> t.inner.transforms(input, output),
{
    let one = seq![t];
    assert(one.drop_last() =~= Seq::<SharedTransformer>::empty());
    assert(one[0] == t);
    if t.inner.transforms(input, output) {
        assert(chain_step(one, 0, Ok::<Record, TransformError>(input), output));
    }
    if chain_transforms(one, input, output) {
        let mid = choose|mid: Result<Record, TransformError>|
            chain_transforms(one.drop_last(), input, mid) && #[trigger] chain_step(one, one.len() - 1, mid, output);
        assert(mid == Ok::<Record, TransformError>(input));
    }
}

/// Once a chain prefix has failed, the whole chain fails with that error.
pub proof fn lemma_chain_failure_propagates(
    ts: Seq<SharedTransformer>,
    j: int,
    input: Record,
    e: TransformError,
)
    requires
        0 <= j <= ts.len(),
        chain_transforms(ts.take(j), input, Err(e)),
    ensures
        chain_transforms(ts, input, Err(e)),
    decreases ts.len() - j,
{
    if j < ts.len() {
        assert(ts.take(j + 1).drop_last() =~= ts.take(j));
        assert(chain_step(ts.take(j + 1), j, Err::<Record, TransformError>(e), Err(e)));
        lemma_chain_failure_propagates(ts, j + 1, input, e);
    } else {
        assert(ts.take(j) =~= ts);
    }
}

/// The content of a batch result.
pub open spec fn batch_view(r: Result<Vec<Record>, TransformError>) -> Result<Seq<Record>, TransformError> {
    match r {
        Ok(v) => Ok(v@),
        Err(e) => Err(e),
    }
}

/// A batch result is what transforming the inputs one by one gives: every
/// output on success, or the error of the first input that failed.
pub open spec fn batch_transforms<T: Transformer + ?Sized>(
    t: &T,
    inputs: Seq<Record>,
    output: Result<Seq<Record>, TransformError>,
) -> bool {
    match output {
        Ok(outs) => outs.len() == inputs.len() && forall|i: int|
            0 <= i < inputs.len() ==> t.transforms(inputs[i], Ok(#[trigger] outs[i])),
        Err(e) => exists|k: int|
            0 <= k < inputs.len() && #[trigger] t.transforms(inputs[k], Err(e))
            && prefix_succeeds(|a: Record, b: Result<Record, TransformError>| t.transforms(a, b), inputs, k),
    }
}

/// What applying the transformers in order gives: the first failure stops
/// the chain.
pub open spec fn chain_transforms(
    ts: Seq<SharedTransformer>,
    input: Record,
    output: Result<Record, TransformError>,
) -> bool
    decreases ts.len(),
{
    if ts.len() == 0 {
        output == Ok::<Record, TransformError>(input)
    } else {
        exists|mid: Result<Record, TransformError>|
            chain_transforms(ts.drop_last(), input, mid) && #[trigger] chain_step(ts, ts.len() - 1, mid, output)
    }
}

/// One step of a chain: an earlier failure passes through, a record goes
/// through the transformer.
pub open spec fn chain_step(
    ts: Seq<SharedTransformer>,
    i: int,
    mid: Result<Record, TransformError>,
    output: Result<Record, TransformError>,
) -> bool {
    match mid {
        Ok(m) => ts[i].inner.transforms(m, output),
        Err(e) => output == Err::<Record, TransformError>(e),
    }
}

/// What applying the transformers' batch operations in order gives: the
/// first failing batch stops the chain.
pub open spec fn chain_batch_transforms(
    ts: Seq<SharedTransformer>,
    inputs: Seq<Record>,
    output: Result<Seq<Record>, TransformError>,
) -> bool
    decreases ts.len(),
{
    if ts.len() == 0 {
        output == Ok::<Seq<Record>, TransformError>(inputs)
    } else {
        exists|mid: Result<Seq<Record>, TransformError>|
            chain_batch_transforms(ts.drop_last(), inputs, mid) && #[trigger] batch_step(ts, ts.len() - 1, mid, output)
    }
}

/// One batch step of a chain: an earlier failure passes through, a batch
/// goes through the transformer's batch operation.
pub open spec fn batch_step(
    ts: Seq<SharedTransformer>,
    i: int,
    mid: Result<Seq<Record>, TransformError>,
    output: Result<Seq<Record>, TransformError>,
) -> bool {
    match mid {
        Ok(m) => batch_transforms(&*ts[i].inner, m, output),
        Err(e) => output == Err::<Seq<Record>, TransformError>(e),
    }
}

/// Once a chain prefix has failed on a batch, the whole chain fails with
/// that error.
pub proof fn lemma_chain_batch_failure_propagates(
    ts: Seq<SharedTransformer>,
    j: int,
    inputs: Seq<Record>,
    e: TransformError,
)
    requires
        0 <= j <= ts.len(),
        chain_batch_transforms(ts.take(j), inputs, Err(e)),
    ensures
        chain_batch_transforms(ts, inputs, Err(e)),
    decreases ts.len() - j,
{
    if j < ts.len() {
        assert(ts.take(j + 1).drop_last() =~= ts.take(j));
        assert(batch_step(ts.take(j + 1), j, Err::<Seq<Record>, TransformError>(e), Err(e)));
        lemma_chain_batch_failure_propagates(ts, j + 1, inputs, e);
    } else {
        assert(ts.take(j) =~= ts);
    }
}

/// Runs a record through transformers in order.
pub fn run_chain(ts: &Vec<SharedTransformer>, record: Record) -> (r: Result<Record, TransformError>)
    ensures
        chain_transforms(ts@, record, r),
{
    let ghost input = record;
    let mut cur = record;
    let mut i: usize = 0;
    while i < ts.len()
        invariant
            i <= ts@.len(),
            input == record,
            chain_transforms(ts@.take(i as int), input, Ok(cur)),
        decreases ts@.len() - i,
    {
        let ghost before = cur;
        let step = ts[i].inner.transform(cur);
        assert(ts@.take(i + 1).drop_last() =~= ts@.take(i as int));
        assert(chain_step(ts@.take(i + 1), i as int, Ok::<Record, TransformError>(before), step));
        match step {
            Ok(next) => {
                cur = next;
            },
            Err(e) => {
                proof {
                    assert(chain_transforms(ts@.take(i + 1), input, Err(e)));
                    lemma_chain_failure_propagates(ts@, i + 1, input, e);
                }
                return Err(e);
            },
        }
        i = i + 1;
    }
    assert(ts@.take(ts@.len() as int) =~= ts@);
    Ok(cur)
}

/// Runs a batch through the transformers' batch operations in order.
pub fn run_chain_batch(ts: &Vec<SharedTransformer>, records: Vec<Record>) -> (r: Result<Vec<Record>, TransformError>)
    ensures
        chain_batch_transforms(ts@, records@, batch_view(r)),
{
    let ghost inputs = records@;
    let mut cur = records;
    let mut i: usize = 0;
    while i < ts.len()
        invariant
            i <= ts@.len(),
            inputs == records@,
            chain_batch_transforms(ts@.take(i as int), inputs, Ok(cur@)),
        decreases ts@.len() - i,
    {
        let ghost before = cur@;
        let step = ts[i].inner.transform_batch(cur);
        assert(ts@.take(i + 1).drop_last() =~= ts@.take(i as int));
        assert(batch_step(ts@.take(i + 1), i as int, Ok::<Seq<Record>, TransformError>(before), batch_view(step)));
        match step {
            Ok(next) => {
                cur = next;
            },
            Err(e) => {
                proof {
                    assert(chain_batch_transforms(ts@.take(i + 1), inputs, Err(e)));
                    lemma_chain_batch_failure_propagates(ts@, i + 1, inputs, e);
                }
                return Err(e);
            },
        }
        i = i + 1;
    }
    assert(ts@.take(ts@.len() as int) =~= ts@);
    Ok(cur)
}

/// Transformer chain for applying multiple transformers in sequence.
pub struct TransformerChain {
    transformers: Vec<SharedTransformer>,
}

impl TransformerChain {
    /// The transformers, in order.
    pub closed spec fn steps(&self) -> Seq<SharedTransformer> {
        self.transformers@
    }

    /// Creates a new empty transformer chain.
    pub fn new() -> (c: Self)
        ensures
            c.steps().len() == 0,
    {
        TransformerChain { transformers: Vec::new() }
    }

    /// Adds a transformer at the end of the chain.
    pub fn with_transformer(self, transformer: SharedTransformer) -> (c: Self)
        ensures
            c.steps() == self.steps().push(transformer),
    {
        let mut transformers = self.transformers;
        transformers.push(transformer);
        TransformerChain { transformers }
    }

    /// Transforms a record through all transformers in sequence.
    pub fn transform(&self, record: Record) -> (r: Result<Record, TransformError>)
        ensures
            chain_transforms(self.steps(), record, r),
    {
        run_chain(&self.transformers, record)
    }

    /// Batch transforms records through all transformers.
    pub fn transform_batch(&self, records: Vec<Record>) -> (r: Result<Vec<Record>, TransformError>)
        ensures
            chain_batch_transforms(self.steps(), records@, batch_view(r)),
    {
        run_chain_batch(&self.transformers, records)
    }

    /// Returns the number of transformers in the chain.
    pub fn len(&self) -> (n: usize)
        ensures
            n == self.steps().len(),
    {
        self.transformers.len()
    }

    /// Returns true if the chain is empty.
    pub fn is_empty(&self) -> (b: bool)
        ensures
            b == (self.steps().len() == 0),
    {
        self.transformers.len() == 0
    }
}

impl Default for TransformerChain {
    fn default() -> (c: Self)
        ensures
            c.steps().len() == 0,
    {
        Self::new()
    }
}

} // verus!
