//! The template store: a factory's immutable structural snapshot of its
//! template model, and the materialization of fresh, independent copies.

use vstd::prelude::*;
use crate::model::Field;
use crate::model::Model;
use crate::model::ModelView;
use crate::model::lemma_field_views_of_index;
use crate::model::lemma_field_views_of_len;
use crate::model::lemma_views_of_index;
use crate::model::lemma_views_of_len;

verus! {

broadcast use vstd::seq::group_seq_axioms;

/// The immutable structural snapshot a factory freezes at construction.
/// Every materialized copy is structurally equal to the captured template
/// and shares no memory with it.
pub struct Snapshot {
    template: Model,
}

impl View for Snapshot {
    type V = ModelView;

    closed spec fn view(&self) -> ModelView {
        self.template@
    }
}

/// Captures the template model into a snapshot. With this model
/// representation every value has a structural encoding, so capture cannot
/// fail: the snapshot holds exactly the shape of the template.
pub fn capture(model: Model) -> (s: Snapshot)
    ensures
        s@ == model@,
{
    Snapshot { template: model }
}

/// Decodes a fresh, independent copy of the snapshot's template. The copy
/// is structurally equal to the template and aliases none of it.
pub fn materialize(snapshot: &Snapshot) -> (copy: Model)
    ensures
        copy@ == snapshot@,
{
    duplicate(&snapshot.template)
}

/// Law: all copies materialized from one snapshot agree among themselves,
/// and each is structurally equal to the captured template.
pub proof fn lemma_materialized_copies_agree(snapshot: Snapshot, first: Model, second: Model)
    requires
        first@ == snapshot@,
        second@ == snapshot@,
    ensures
        first@ == second@,
{
}

/// A structural deep copy: the result has exactly the view of the input and
/// owns all of its memory.
#[verifier::loop_isolation(false)]
pub fn duplicate(model: &Model) -> (copy: Model)
    ensures
        copy@ == model@,
    decreases *model,
{
    match model {
        Model::Int(i) => Model::Int(*i),
        Model::Bool(b) => Model::Bool(*b),
        Model::Text(s) => Model::Text(s.clone()),
        Model::List(items) => {
            let mut out: Vec<Model> = Vec::new();
            let mut idx: usize = 0;
            while idx < items.len()
                invariant
                    idx <= items.len(),
                    out@.len() == idx,
                    forall|j: int| 0 <= j < idx ==> out@[j]@ == items@[j]@,
                decreases items.len() - idx,
            {
                proof {
                    assert(decreases_to!(*model => items@[idx as int]));
                }
                let copy = duplicate(&items[idx]);
                out.push(copy);
                idx = idx + 1;
            }
            proof {
                lemma_views_of_len(out@);
                lemma_views_of_len(items@);
                assert forall|j: int| 0 <= j < items@.len() implies Model::views_of(out@)[j]
                    == Model::views_of(items@)[j] by {
                    lemma_views_of_index(out@, j);
                    lemma_views_of_index(items@, j);
                }
                assert(Model::views_of(out@) =~= Model::views_of(items@));
            }
            Model::List(out)
        },
        Model::Record(fields) => {
            let mut out: Vec<Field> = Vec::new();
            let mut idx: usize = 0;
            while idx < fields.len()
                invariant
                    idx <= fields.len(),
                    out@.len() == idx,
                    forall|j: int| 0 <= j < idx ==> out@[j]@ == fields@[j]@,
                decreases fields.len() - idx,
            {
                proof {
                    assert(decreases_to!(*model => fields@[idx as int].value));
                }
                let name = fields[idx].name.clone();
                let value = duplicate(&fields[idx].value);
                out.push(Field { name, value });
                idx = idx + 1;
            }
            proof {
                lemma_field_views_of_len(out@);
                lemma_field_views_of_len(fields@);
                assert forall|j: int| 0 <= j < fields@.len() implies Model::field_views_of(out@)[j]
                    == Model::field_views_of(fields@)[j] by {
                    lemma_field_views_of_index(out@, j);
                    lemma_field_views_of_index(fields@, j);
                }
                assert(Model::field_views_of(out@) =~= Model::field_views_of(fields@));
            }
            Model::Record(out)
        },
    }
}

} // verus!
