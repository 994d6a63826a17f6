//! The dynamic model value that factories produce: a tree of integers,
//! booleans, text, lists and records. Contracts speak of its mathematical
//! view, a tree over `int`, `bool` and `Seq`.

use vstd::prelude::*;

verus! {

broadcast use vstd::seq::group_seq_axioms;

/// A named field of a record model.
pub struct Field {
    pub name: String,
    pub value: Model,
}

/// A model value: the domain value a factory materializes and hands out.
pub enum Model {
    Int(i64),
    Bool(bool),
    Text(String),
    List(Vec<Model>),
    Record(Vec<Field>),
}

/// The mathematical shape of a `Field`.
pub struct FieldView {
    pub name: Seq<char>,
    pub value: ModelView,
}

/// The mathematical shape of a `Model`.
pub enum ModelView {
    Int(int),
    Bool(bool),
    Text(Seq<char>),
    List(Seq<ModelView>),
    Record(Seq<FieldView>),
}

impl Model {
    /// The mathematical shape of this model: the same tree, with text as
    /// character sequences and collections as sequences.
    pub open spec fn view_of(self) -> ModelView
        decreases self,
    {
        match self {
            Model::Int(i) => ModelView::Int(i as int),
            Model::Bool(b) => ModelView::Bool(b),
            Model::Text(s) => ModelView::Text(s@),
            Model::List(items) => ModelView::List(Self::views_of(items@)),
            Model::Record(fields) => ModelView::Record(Self::field_views_of(fields@)),
        }
    }

    /// The shapes of a sequence of models, element by element.
    pub open spec fn views_of(items: Seq<Model>) -> Seq<ModelView>
        decreases items,
    {
        if items.len() == 0 {
            Seq::empty()
        } else {
            Self::views_of(items.drop_last()).push(items.last().view_of())
        }
    }

    /// The shapes of a sequence of record fields, element by element.
    pub open spec fn field_views_of(fields: Seq<Field>) -> Seq<FieldView>
        decreases fields,
    {
        if fields.len() == 0 {
            Seq::empty()
        } else {
            Self::field_views_of(fields.drop_last()).push(
                FieldView {
                    name: fields.last().name@,
                    value: fields.last().value.view_of(),
                },
            )
        }
    }
}

impl View for Model {
    type V = ModelView;

    open spec fn view(&self) -> ModelView {
        self.view_of()
    }
}

impl View for Field {
    type V = FieldView;

    open spec fn view(&self) -> FieldView {
        FieldView { name: self.name@, value: self.value.view_of() }
    }
}

/// The value of the first field named `name` in `fields`, front to back.
pub open spec fn lookup_field(fields: Seq<FieldView>, name: Seq<char>) -> Option<ModelView>
    decreases fields,
{
    if fields.len() == 0 {
        None
    } else if fields[0].name == name {
        Some(fields[0].value)
    } else {
        lookup_field(fields.drop_first(), name)
    }
}

/// `fields` with the first field named `name` replaced by `value`, or with
/// a new field appended when no field carries that name.
pub open spec fn store_field(fields: Seq<FieldView>, name: Seq<char>, value: ModelView) -> Seq<
    FieldView,
>
    decreases fields,
{
    if fields.len() == 0 {
        seq![FieldView { name, value }]
    } else if fields[0].name == name {
        seq![FieldView { name, value }] + fields.drop_first()
    } else {
        seq![fields[0]] + store_field(fields.drop_first(), name, value)
    }
}

/// The value of the field named `name`, when `v` is a record that carries
/// one; `None` on every other model.
pub open spec fn field_of(v: ModelView, name: Seq<char>) -> Option<ModelView> {
    match v {
        ModelView::Record(fields) => lookup_field(fields, name),
        _ => None,
    }
}

/// `v` with the field named `name` set to `value`, when `v` is a record:
/// the first field of that name is replaced, or a new field is appended.
/// Every other model is left unchanged.
pub open spec fn set_field(v: ModelView, name: Seq<char>, value: ModelView) -> ModelView {
    match v {
        ModelView::Record(fields) => ModelView::Record(store_field(fields, name, value)),
        _ => v,
    }
}

/// A sequence of models and the sequence of their shapes have one length.
pub proof fn lemma_views_of_len(items: Seq<Model>)
    ensures
        Model::views_of(items).len() == items.len(),
    decreases items,
{
    if items.len() > 0 {
        lemma_views_of_len(items.drop_last());
    }
}

/// The shape sequence of models agrees with the models pointwise.
pub proof fn lemma_views_of_index(items: Seq<Model>, i: int)
    requires
        0 <= i < items.len(),
    ensures
        Model::views_of(items).len() == items.len(),
        Model::views_of(items)[i] == items[i]@,
    decreases items,
{
    lemma_views_of_len(items);
    if i < items.len() - 1 {
        lemma_views_of_index(items.drop_last(), i);
    }
}

/// Looking a name up finds the value stored at the first field of that
/// name.
pub proof fn lemma_lookup_field_at(fields: Seq<FieldView>, name: Seq<char>, j: int)
    requires
        0 <= j < fields.len(),
        fields[j].name == name,
        forall|i: int| 0 <= i < j ==> fields[i].name != name,
    ensures
        lookup_field(fields, name) == Some(fields[j].value),
    decreases j,
{
    if j > 0 {
        lemma_lookup_field_at(fields.drop_first(), name, j - 1);
    }
}

/// Looking a name up that no field carries finds nothing.
pub proof fn lemma_lookup_field_absent(fields: Seq<FieldView>, name: Seq<char>)
    requires
        forall|i: int| 0 <= i < fields.len() ==> fields[i].name != name,
    ensures
        lookup_field(fields, name) is None,
    decreases fields,
{
    if fields.len() > 0 {
        lemma_lookup_field_absent(fields.drop_first(), name);
    }
}

/// Storing under a name that first occurs at position `j` replaces exactly
/// that field.
pub proof fn lemma_store_field_replaces(
    fields: Seq<FieldView>,
    name: Seq<char>,
    value: ModelView,
    j: int,
)
    requires
        0 <= j < fields.len(),
        fields[j].name == name,
        forall|i: int| 0 <= i < j ==> fields[i].name != name,
    ensures
        store_field(fields, name, value) == fields.update(j, FieldView { name, value }),
    decreases j,
{
    if j == 0 {
        assert(store_field(fields, name, value) =~= fields.update(0, FieldView { name, value }));
    } else {
        lemma_store_field_replaces(fields.drop_first(), name, value, j - 1);
        assert(store_field(fields, name, value) =~= fields.update(j, FieldView { name, value }));
    }
}

/// Storing under a name that no field carries appends a new field.
pub proof fn lemma_store_field_appends(fields: Seq<FieldView>, name: Seq<char>, value: ModelView)
    requires
        forall|i: int| 0 <= i < fields.len() ==> fields[i].name != name,
    ensures
        store_field(fields, name, value) == fields.push(FieldView { name, value }),
    decreases fields,
{
    if fields.len() == 0 {
        assert(store_field(fields, name, value) =~= fields.push(FieldView { name, value }));
    } else {
        lemma_store_field_appends(fields.drop_first(), name, value);
        assert(store_field(fields, name, value) =~= fields.push(FieldView { name, value }));
    }
}

/// Looking up a name right after storing under it finds the stored value.
pub proof fn lemma_lookup_store(fields: Seq<FieldView>, name: Seq<char>, value: ModelView)
    ensures
        lookup_field(store_field(fields, name, value), name) == Some(value),
    decreases fields,
{
    if fields.len() > 0 && fields[0].name != name {
        lemma_lookup_store(fields.drop_first(), name, value);
        assert(store_field(fields, name, value).drop_first() =~= store_field(
            fields.drop_first(),
            name,
            value,
        ));
    }
}

/// Law: on any record, the last write to a field is the one its lookup
/// sees; a field set twice holds the second value.
pub proof fn lemma_last_set_wins(
    v: ModelView,
    name: Seq<char>,
    first: ModelView,
    second: ModelView,
)
    requires
        v is Record,
    ensures
        field_of(set_field(set_field(v, name, first), name, second), name) == Some(second),
{
    lemma_lookup_store(store_field(v->Record_0, name, first), name, second);
}

/// A sequence of fields and the sequence of their shapes have one length.
pub proof fn lemma_field_views_of_len(fields: Seq<Field>)
    ensures
        Model::field_views_of(fields).len() == fields.len(),
    decreases fields,
{
    if fields.len() > 0 {
        lemma_field_views_of_len(fields.drop_last());
    }
}

/// The shape sequence of fields agrees with the fields pointwise.
pub proof fn lemma_field_views_of_index(fields: Seq<Field>, i: int)
    requires
        0 <= i < fields.len(),
    ensures
        Model::field_views_of(fields).len() == fields.len(),
        Model::field_views_of(fields)[i] == fields[i]@,
    decreases fields,
{
    lemma_field_views_of_len(fields);
    if i < fields.len() - 1 {
        lemma_field_views_of_index(fields.drop_last(), i);
    }
}

/// Whether two strings hold the same characters.
fn string_eq(a: &String, b: &String) -> (r: bool)
    ensures
        r == (a@ == b@),
{
    a.eq(b)
}

/// The position of the first field of `fields` named `key`, front to back.
#[verifier::loop_isolation(false)]
fn find_field(fields: &Vec<Field>, key: &String) -> (r: Option<usize>)
    ensures
        match r {
            Some(j) => j < fields@.len() && fields@[j as int].name@ == key@ && forall|i: int|
                0 <= i < j ==> fields@[i].name@ != key@,
            None => forall|i: int| 0 <= i < fields@.len() ==> fields@[i].name@ != key@,
        },
{
    let mut idx: usize = 0;
    while idx < fields.len()
        invariant
            idx <= fields@.len(),
            forall|i: int| 0 <= i < idx ==> fields@[i].name@ != key@,
        decreases fields@.len() - idx,
    {
        if string_eq(&fields[idx].name, key) {
            return Some(idx);
        }
        idx = idx + 1;
    }
    None
}

impl Model {
    /// This model with the field `name` set to `value`: on a record, the
    /// first field of that name is replaced, or a new field appended when
    /// none carries it; any other model is returned unchanged.
    #[verifier::loop_isolation(false)]
    pub fn with_field(self, name: &str, value: Model) -> (r: Model)
        ensures
            r@ == set_field(self@, name@, value@),
    {
        match self {
            Model::Record(mut fields) => {
                let key = String::from_str(name);
                match find_field(&fields, &key) {
                    Some(j) => {
                        proof {
                            lemma_field_views_of_len(fields@);
                            assert forall|i: int| 0 <= i < j implies Model::field_views_of(
                                fields@,
                            )[i].name != name@ by {
                                lemma_field_views_of_index(fields@, i);
                            }
                            lemma_field_views_of_index(fields@, j as int);
                            lemma_store_field_replaces(
                                Model::field_views_of(fields@),
                                name@,
                                value@,
                                j as int,
                            );
                        }
                        let ghost old_fields = fields@;
                        fields[j] = Field { name: key, value };
                        proof {
                            lemma_field_views_of_len(fields@);
                            assert forall|i: int| 0 <= i < fields@.len() implies
                                Model::field_views_of(fields@)[i] == store_field(
                                Model::field_views_of(old_fields),
                                name@,
                                value@,
                            )[i] by {
                                lemma_field_views_of_index(fields@, i);
                                if i != j {
                                    lemma_field_views_of_index(old_fields, i);
                                }
                            }
                            assert(Model::field_views_of(fields@) =~= store_field(
                                Model::field_views_of(old_fields),
                                name@,
                                value@,
                            ));
                        }
                        Model::Record(fields)
                    },
                    None => {
                        proof {
                            lemma_field_views_of_len(fields@);
                            assert forall|i: int| 0 <= i < fields@.len() implies
                                Model::field_views_of(fields@)[i].name != name@ by {
                                lemma_field_views_of_index(fields@, i);
                            }
                            lemma_store_field_appends(
                                Model::field_views_of(fields@),
                                name@,
                                value@,
                            );
                        }
                        let ghost old_fields = fields@;
                        fields.push(Field { name: key, value });
                        proof {
                            lemma_field_views_of_len(fields@);
                            assert forall|i: int| 0 <= i < fields@.len() implies
                                Model::field_views_of(fields@)[i] == store_field(
                                Model::field_views_of(old_fields),
                                name@,
                                value@,
                            )[i] by {
                                lemma_field_views_of_index(fields@, i);
                                if i < fields@.len() - 1 {
                                    lemma_field_views_of_index(old_fields, i);
                                }
                            }
                            assert(Model::field_views_of(fields@) =~= store_field(
                                Model::field_views_of(old_fields),
                                name@,
                                value@,
                            ));
                        }
                        Model::Record(fields)
                    },
                }
            },
            other => other,
        }
    }

    /// The value of the field `name` of this model: its first field of that
    /// name when the model is a record that carries one, `None` otherwise.
    pub fn field(&self, name: &str) -> (r: Option<&Model>)
        ensures
            match r {
                Some(v) => field_of(self@, name@) == Some(v@),
                None => field_of(self@, name@) is None,
            },
    {
        match self {
            Model::Record(fields) => {
                let key = String::from_str(name);
                match find_field(fields, &key) {
                    Some(j) => {
                        proof {
                            lemma_field_views_of_len(fields@);
                            assert forall|i: int| 0 <= i < j implies Model::field_views_of(
                                fields@,
                            )[i].name != name@ by {
                                lemma_field_views_of_index(fields@, i);
                            }
                            lemma_field_views_of_index(fields@, j as int);
                            lemma_lookup_field_at(
                                Model::field_views_of(fields@),
                                name@,
                                j as int,
                            );
                        }
                        Some(&fields[j].value)
                    },
                    None => {
                        proof {
                            lemma_field_views_of_len(fields@);
                            assert forall|i: int| 0 <= i < fields@.len() implies
                                Model::field_views_of(fields@)[i].name != name@ by {
                                lemma_field_views_of_index(fields@, i);
                            }
                            lemma_lookup_field_absent(Model::field_views_of(fields@), name@);
                        }
                        None
                    },
                }
            },
            _ => None,
        }
    }
}

/// Structural equality of two models: true exactly when their views agree.
#[verifier::loop_isolation(false)]
pub fn models_equal(a: &Model, b: &Model) -> (r: bool)
    ensures
        r == (a@ == b@),
    decreases *a,
{
    match (a, b) {
        (Model::Int(x), Model::Int(y)) => *x == *y,
        (Model::Bool(x), Model::Bool(y)) => *x == *y,
        (Model::Text(x), Model::Text(y)) => string_eq(x, y),
        (Model::List(xs), Model::List(ys)) => {
            proof {
                lemma_views_of_len(xs@);
                lemma_views_of_len(ys@);
            }
            if xs.len() != ys.len() {
                return false;
            }
            let mut idx: usize = 0;
            while idx < xs.len()
                invariant
                    idx <= xs@.len(),
                    forall|j: int| 0 <= j < idx ==> xs@[j]@ == ys@[j]@,
                decreases xs@.len() - idx,
            {
                proof {
                    assert(decreases_to!(*a => xs@[idx as int]));
                    lemma_views_of_index(xs@, idx as int);
                    lemma_views_of_index(ys@, idx as int);
                }
                if !models_equal(&xs[idx], &ys[idx]) {
                    return false;
                }
                idx = idx + 1;
            }
            proof {
                assert forall|j: int| 0 <= j < xs@.len() implies Model::views_of(xs@)[j]
                    == Model::views_of(ys@)[j] by {
                    lemma_views_of_index(xs@, j);
                    lemma_views_of_index(ys@, j);
                }
                assert(Model::views_of(xs@) =~= Model::views_of(ys@));
            }
            true
        },
        (Model::Record(xs), Model::Record(ys)) => {
            proof {
                lemma_field_views_of_len(xs@);
                lemma_field_views_of_len(ys@);
            }
            if xs.len() != ys.len() {
                return false;
            }
            let mut idx: usize = 0;
            while idx < xs.len()
                invariant
                    idx <= xs@.len(),
                    forall|j: int| 0 <= j < idx ==> xs@[j]@ == ys@[j]@,
                decreases xs@.len() - idx,
            {
                proof {
                    assert(decreases_to!(*a => xs@[idx as int].value));
                    lemma_field_views_of_index(xs@, idx as int);
                    lemma_field_views_of_index(ys@, idx as int);
                }
                if !string_eq(&xs[idx].name, &ys[idx].name) {
                    return false;
                }
                if !models_equal(&xs[idx].value, &ys[idx].value) {
                    return false;
                }
                idx = idx + 1;
            }
            proof {
                assert forall|j: int| 0 <= j < xs@.len() implies Model::field_views_of(xs@)[j]
                    == Model::field_views_of(ys@)[j] by {
                    lemma_field_views_of_index(xs@, j);
                    lemma_field_views_of_index(ys@, j);
                }
                assert(Model::field_views_of(xs@) =~= Model::field_views_of(ys@));
            }
            true
        },
        _ => {
            false
        },
    }
}

} // verus!
