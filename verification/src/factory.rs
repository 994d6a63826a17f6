//! The factory runtime: a frozen template snapshot, a monotonic sequence
//! counter, and a construction-time generator, composed into single-build,
//! batch-build and explicit-number build operations.

use vstd::prelude::*;
use crate::alphabet::letters_of;
use crate::alphabet::to_alphabet;
use crate::model::Model;
use crate::model::ModelView;
use crate::snapshot::Snapshot;
use crate::snapshot::capture;
use crate::snapshot::materialize;

verus! {

/// The error a factory operation can report. Capturing a snapshot and
/// materializing a copy are total for this model representation, so the one
/// failure left is a sequence letter outside the supported alphabet.
#[derive(Clone, Copy, Debug, PartialEq, Eq, Structural)]
pub enum FactoryError {
    /// The starting letter handed to [`sequence_a`] is not one of the 26
    /// supported lowercase letters.
    Lookup,
}

/// The 0-based alphabet position of `s`, when `s` is a single supported
/// lowercase letter.
pub open spec fn letter_index_of(s: Seq<char>) -> Option<int> {
    if s.len() == 1 && 'a' as int <= s[0] as int && s[0] as int <= 'z' as int {
        Some(s[0] as int - 'a' as int)
    } else {
        None
    }
}

/// The 0-based alphabet position of the single letter `from`, or `None`
/// when `from` is not one of the 26 supported letters.
fn letter_index(from: &str) -> (r: Option<u8>)
    ensures
        match r {
            Some(i) => i < 26 && letter_index_of(from@) == Some(i as int),
            None => letter_index_of(from@) is None,
        },
{
    if from.unicode_len() == 1 {
        let c = from.get_char(0);
        let code = c as u32;
        if 97 <= code && code <= 122 {
            Some((code - 97) as u8)
        } else {
            None
        }
    } else {
        None
    }
}

/// Returns a consecutive letter anchored at `from`: the n-th word of the
/// infinite base-26 letter sequence that begins at `from`. The first word
/// (`n == 1`) is `from` itself, and the sequence runs past "z" as "aa",
/// "ab", and so on. Fails with [`FactoryError::Lookup`] when `from` is not
/// one of the 26 supported lowercase letters.
pub fn sequence_a(from: &str, n: u16) -> (r: Result<String, FactoryError>)
    requires
        n >= 1,
    ensures
        match r {
            Ok(s) => letter_index_of(from@) matches Some(idx) && s@ == letters_of(
                (idx + n - 1) as nat,
            ),
            Err(e) => letter_index_of(from@) is None && e == FactoryError::Lookup,
        },
{
    match letter_index(from) {
        Some(idx) => Ok(to_alphabet(idx as u128 + (n - 1) as u128)),
        None => Err(FactoryError::Lookup),
    }
}

/// A factory: an immutable snapshot of the template model, the sequence
/// counter of the next ordinary build, and the generator fixed at
/// construction. The generator takes a fresh copy of the template and the
/// sequence number of the build, and returns the varied model.
pub struct Factory<G> {
    pub model: Snapshot,
    pub sequence: u16,
    pub gen_func: G,
}

/// The generator accepts every model and every sequence number, as a
/// generator closure without preconditions does.
pub open spec fn generator_total<G: Fn(Model, u16) -> Model>(g: G) -> bool {
    forall|m: Model, n: u16| #[trigger] call_requires(g, (m, n))
}

/// The override accepts every model, as an override closure without
/// preconditions does.
pub open spec fn override_total<O: Fn(Model) -> Model>(f: O) -> bool {
    forall|m: Model| #[trigger] call_requires(f, (m,))
}

/// What one build call produces: some fresh copy of the template shape
/// `template` was run through the generator `g` with sequence number `n`,
/// and the result through the override `f`, yielding `r`.
pub open spec fn builds<G: Fn(Model, u16) -> Model, O: Fn(Model) -> Model>(
    g: G,
    template: ModelView,
    n: u16,
    f: O,
    r: Model,
) -> bool {
    exists|copy: Model, mid: Model|
        copy@ == template && #[trigger] call_ensures(g, (copy, n), mid) && #[trigger] call_ensures(
            f,
            (mid,),
            r,
        )
}

/// Law: the override always wins over the generator on any field both
/// touch in one build call. Whenever every output of the override carries
/// `value` at the field `name`, every model a build returns carries `value`
/// there, whatever the generator wrote to it.
pub proof fn lemma_override_wins<G: Fn(Model, u16) -> Model, O: Fn(Model) -> Model>(
    g: G,
    template: ModelView,
    n: u16,
    f: O,
    r: Model,
    name: Seq<char>,
    value: ModelView,
)
    requires
        builds(g, template, n, f, r),
        forall|m: Model, out: Model| #[trigger] call_ensures(f, (m,), out) ==> crate::model::field_of(
            out@,
            name,
        ) == Some(value),
    ensures
        crate::model::field_of(r@, name) == Some(value),
{
    let (copy, mid): (Model, Model) = choose|copy: Model, mid: Model|
        copy@ == template && #[trigger] call_ensures(g, (copy, n), mid) && #[trigger] call_ensures(
            f,
            (mid,),
            r,
        );
    assert(call_ensures(f, (mid,), r));
}

/// Law: a field the override leaves alone keeps the generator's value.
/// Whenever the generator always writes `value` at the field `name` for
/// sequence number `n`, and the override carries that field through
/// unchanged, every model the build returns carries `value` there.
pub proof fn lemma_untouched_field_survives<G: Fn(Model, u16) -> Model, O: Fn(Model) -> Model>(
    g: G,
    template: ModelView,
    n: u16,
    f: O,
    r: Model,
    name: Seq<char>,
    value: ModelView,
)
    requires
        builds(g, template, n, f, r),
        forall|m: Model, out: Model| #[trigger] call_ensures(g, (m, n), out) ==> crate::model::field_of(
            out@,
            name,
        ) == Some(value),
        forall|m: Model, out: Model| #[trigger] call_ensures(f, (m,), out) ==> crate::model::field_of(
            out@,
            name,
        ) == crate::model::field_of(m@, name),
    ensures
        crate::model::field_of(r@, name) == Some(value),
{
    let (copy, mid): (Model, Model) = choose|copy: Model, mid: Model|
        copy@ == template && #[trigger] call_ensures(g, (copy, n), mid) && #[trigger] call_ensures(
            f,
            (mid,),
            r,
        );
    assert(call_ensures(g, (copy, n), mid));
    assert(call_ensures(f, (mid,), r));
}

/// Creates a [`Factory`] for the template `model`: freezes its structural
/// snapshot, fixes the generator, and starts the sequence counter at 1.
pub fn new<G: Fn(Model, u16) -> Model>(model: Model, suite: G) -> (factory: Factory<G>)
    requires
        generator_total(suite),
    ensures
        factory.model@ == model@,
        factory.sequence == 1,
        factory.gen_func == suite,
        factory.wf(),
{
    Factory { model: capture(model), sequence: 1, gen_func: suite }
}

/// Returns a consecutive term anchored at `from`: the n-th term of the
/// sequence `from`, `from + 1`, ... The first term (`n == 1`) is `from`.
pub fn sequence(from: u16, n: u16) -> (r: u16)
    requires
        from + n >= 1,
        from + n <= u16::MAX,
    ensures
        r == from + n - 1,
{
    from + n - 1
}

impl<G: Fn(Model, u16) -> Model> Factory<G> {
    /// A factory is well formed when its generator accepts every model and
    /// sequence number; building never has to guess what the generator
    /// demands.
    pub open spec fn wf(&self) -> bool {
        generator_total(self.gen_func)
    }

    /// The shared core of every build operation: materialize a copy, run
    /// the generator with the given sequence number, run the override,
    /// advance the counter.
    fn build_with<O: Fn(Model) -> Model>(&mut self, n: u16, f: &O) -> (r: Model)
        requires
            old(self).wf(),
            override_total(*f),
            old(self).sequence < u16::MAX,
        ensures
            final(self).model == old(self).model,
            final(self).gen_func == old(self).gen_func,
            final(self).sequence == old(self).sequence + 1,
            builds(old(self).gen_func, old(self).model@, n, *f, r),
    {
        let copy = materialize(&self.model);
        let mid = (self.gen_func)(copy, n);
        let r = f(mid);
        self.sequence = self.sequence + 1;
        r
    }

    /// Builds one model: materializes a fresh copy of the snapshot, runs the
    /// generator on it with the current counter value, runs the per-call
    /// override on the generator's output, advances the counter by one, and
    /// returns the overridden copy.
    pub fn build<O: Fn(Model) -> Model>(&mut self, f: O) -> (r: Model)
        requires
            old(self).wf(),
            override_total(f),
            old(self).sequence < u16::MAX,
        ensures
            final(self).model == old(self).model,
            final(self).gen_func == old(self).gen_func,
            final(self).sequence == old(self).sequence + 1,
            builds(old(self).gen_func, old(self).model@, old(self).sequence, f, r),
    {
        let n = self.sequence;
        self.build_with(n, &f)
    }

    /// Builds one model exactly as [`Self::build`] does, except that the
    /// explicit sequence number `n` stands in for the counter's current
    /// value when the generator runs; the counter still advances by one.
    pub fn build_n<O: Fn(Model) -> Model>(&mut self, n: u16, f: O) -> (r: Model)
        requires
            old(self).wf(),
            override_total(f),
            old(self).sequence < u16::MAX,
        ensures
            final(self).model == old(self).model,
            final(self).gen_func == old(self).gen_func,
            final(self).sequence == old(self).sequence + 1,
            builds(old(self).gen_func, old(self).model@, n, f, r),
    {
        self.build_with(n, &f)
    }

    /// Builds a vector of `number` models with one override: element `i` is
    /// built with sequence number `c + i`, where `c` is the counter value
    /// before the call, and the counter ends at `c + number`.
    pub fn build_list<O: Fn(Model) -> Model>(&mut self, number: u16, f: O) -> (list: Vec<Model>)
        requires
            old(self).wf(),
            override_total(f),
            old(self).sequence + number <= u16::MAX,
        ensures
            final(self).model == old(self).model,
            final(self).gen_func == old(self).gen_func,
            final(self).sequence == old(self).sequence + number,
            list@.len() == number,
            forall|i: int|
                0 <= i < number ==> builds(
                    old(self).gen_func,
                    old(self).model@,
                    (old(self).sequence + i) as u16,
                    f,
                    list@[i],
                ),
    {
        let mut list: Vec<Model> = Vec::new();
        let mut k: u16 = 0;
        while k < number
            invariant
                old(self).wf(),
                override_total(f),
                old(self).sequence + number <= u16::MAX,
                0 <= k <= number,
                self.model == old(self).model,
                self.gen_func == old(self).gen_func,
                self.sequence == old(self).sequence + k,
                list@.len() == k,
                forall|i: int|
                    0 <= i < k ==> builds(
                        old(self).gen_func,
                        old(self).model@,
                        (old(self).sequence + i) as u16,
                        f,
                        list@[i],
                    ),
            decreases number - k,
        {
            let n = self.sequence;
            let built = self.build_with(n, &f);
            list.push(built);
            k = k + 1;
        }
        list
    }

    /// Builds the `n`-th page of `number` models: element `i` is built with
    /// the explicit sequence number `number * (n - 1) + 1 + i`, so the page
    /// covers the contiguous range `[number * (n - 1) + 1, number * n]`; the
    /// counter still advances by one per element.
    pub fn build_list_n<O: Fn(Model) -> Model>(&mut self, number: u16, n: u16, f: O) -> (list: Vec<
        Model,
    >)
        requires
            old(self).wf(),
            override_total(f),
            n >= 1,
            number * n <= u16::MAX,
            old(self).sequence + number <= u16::MAX,
        ensures
            final(self).model == old(self).model,
            final(self).gen_func == old(self).gen_func,
            final(self).sequence == old(self).sequence + number,
            list@.len() == number,
            forall|i: int|
                0 <= i < number ==> builds(
                    old(self).gen_func,
                    old(self).model@,
                    (number * (n - 1) + 1 + i) as u16,
                    f,
                    list@[i],
                ),
    {
        let mut list: Vec<Model> = Vec::new();
        let mut k: u16 = 0;
        proof {
            assert(number * (n - 1) + number == number * n) by (nonlinear_arith);
            assert(number * (n - 1) >= 0) by (nonlinear_arith)
                requires
                    n >= 1,
            ;
        }
        while k < number
            invariant
                old(self).wf(),
                override_total(f),
                old(self).sequence + number <= u16::MAX,
                number * (n - 1) + number == number * n,
                number * n <= u16::MAX,
                number * (n - 1) >= 0,
                n >= 1,
                0 <= k <= number,
                self.model == old(self).model,
                self.gen_func == old(self).gen_func,
                self.sequence == old(self).sequence + k,
                list@.len() == k,
                forall|i: int|
                    0 <= i < k ==> builds(
                        old(self).gen_func,
                        old(self).model@,
                        (number * (n - 1) + 1 + i) as u16,
                        f,
                        list@[i],
                    ),
            decreases number - k,
        {
            let explicit = number * (n - 1) + 1 + k;
            let built = self.build_with(explicit, &f);
            list.push(built);
            k = k + 1;
        }
        list
    }
}

} // verus!
