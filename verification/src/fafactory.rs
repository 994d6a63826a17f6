//! A factory variant without per-call overrides: the generator alone varies
//! each materialized copy.

use vstd::prelude::*;
use crate::factory::generator_total;
use crate::model::Model;
use crate::model::ModelView;
use crate::snapshot::Snapshot;
use crate::snapshot::capture;
use crate::snapshot::materialize;

verus! {

/// A factory without overrides: a frozen template snapshot, the sequence
/// counter of the next build, and the generator fixed at construction.
pub struct FaFactory<G> {
    pub model: Snapshot,
    pub sequence: u16,
    pub gen_func: G,
}

/// What one build call of [`FaFactory`] produces: some fresh copy of the
/// template shape `template` was run through the generator `g` with
/// sequence number `n`, yielding `r`.
pub open spec fn generates<G: Fn(Model, u16) -> Model>(
    g: G,
    template: ModelView,
    n: u16,
    r: Model,
) -> bool {
    exists|copy: Model| copy@ == template && #[trigger] call_ensures(g, (copy, n), r)
}

/// Creates a [`FaFactory`] for the template `model`: freezes its structural
/// snapshot, fixes the generator, and starts the sequence counter at 1.
pub fn nnew<G: Fn(Model, u16) -> Model>(model: Model, suite: G) -> (factory: FaFactory<G>)
    requires
        generator_total(suite),
    ensures
        factory.model@ == model@,
        factory.sequence == 1,
        factory.gen_func == suite,
        factory.wf(),
{
    let factory = FaFactory { model: capture(model), sequence: 1, gen_func: suite };
    factory
}

/// Returns a consecutive term anchored at `from`: the n-th term of the
/// sequence `from`, `from + 1`, ... The first term (`n == 1`) is `from`.
pub fn sequence(from: u16, n: u16) -> (r: u16)
    requires
        from + n >= 1,
        from + n <= u16::MAX,
    ensures
        r == from + n - 1,
{
    from + n - 1
}

impl<G: Fn(Model, u16) -> Model> FaFactory<G> {
    /// A well-formed factory holds a generator that accepts every model and
    /// sequence number.
    pub open spec fn wf(&self) -> bool {
        generator_total(self.gen_func)
    }

    /// Builds one model: materializes a fresh copy of the snapshot, runs the
    /// generator on it with the current counter value, advances the counter
    /// by one, and returns the generated copy.
    pub fn build(&mut self) -> (r: Model)
        requires
            old(self).wf(),
            old(self).sequence < u16::MAX,
        ensures
            final(self).model == old(self).model,
            final(self).gen_func == old(self).gen_func,
            final(self).sequence == old(self).sequence + 1,
            generates(old(self).gen_func, old(self).model@, old(self).sequence, r),
    {
        let copy = materialize(&self.model);
        let r = (self.gen_func)(copy, self.sequence);
        self.sequence = self.sequence + 1;
        r
    }

    /// Builds a vector of `number` models: element `i` is built with
    /// sequence number `c + i`, where `c` is the counter value before the
    /// call, and the counter ends at `c + number`.
    pub fn build_list(&mut self, number: u16) -> (list: Vec<Model>)
        requires
            old(self).wf(),
            old(self).sequence + number <= u16::MAX,
        ensures
            final(self).model == old(self).model,
            final(self).gen_func == old(self).gen_func,
            final(self).sequence == old(self).sequence + number,
            list@.len() == number,
            forall|i: int|
                0 <= i < number ==> generates(
                    old(self).gen_func,
                    old(self).model@,
                    (old(self).sequence + i) as u16,
                    list@[i],
                ),
    {
        let mut list: Vec<Model> = Vec::new();
        let mut k: u16 = 0;
        while k < number
            invariant
                old(self).wf(),
                old(self).sequence + number <= u16::MAX,
                0 <= k <= number,
                self.model == old(self).model,
                self.gen_func == old(self).gen_func,
                self.sequence == old(self).sequence + k,
                list@.len() == k,
                forall|i: int|
                    0 <= i < k ==> generates(
                        old(self).gen_func,
                        old(self).model@,
                        (old(self).sequence + i) as u16,
                        list@[i],
                    ),
            decreases number - k,
        {
            let built = self.build();
            list.push(built);
            k = k + 1;
        }
        list
    }
}

} // verus!
