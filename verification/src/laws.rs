//! What holds of every declaration, every source record and every selection.

use vstd::prelude::*;
use crate::attrs::{lemma_source_type_is_first_named, named_source, passed_over, source_type};
use crate::generate::{
    is_optional, named_fields, projection_of, step_for, Declaration, DeriveError, FieldDecl,
    ProjectionView, StepView,
};
use crate::project::{
    distinct_names, field_value, is_projection, well_typed, Projected, ProjectedField,
    SourceField,
};

verus! {

/// A field whose declared type is not the optional wrapper holds the source's
/// value, whatever the selection is and whether or not it names the field.
pub proof fn lemma_plain_field_is_copied<V>(
    decl: Declaration,
    k: int,
    record: Seq<SourceField<V>>,
    selected: Set<Seq<char>>,
    out: Seq<ProjectedField<V>>,
)
    requires
        projection_of(decl).is_ok(),
        well_typed(projection_of(decl).unwrap().steps, record),
        is_projection(out, projection_of(decl).unwrap().steps, record, selected),
        0 <= k < named_fields(decl.data).unwrap().len(),
        !is_optional(named_fields(decl.data).unwrap()[k].ty),
    ensures
        out[k].name@ == named_fields(decl.data).unwrap()[k].ident@,
        field_value(record, named_fields(decl.data).unwrap()[k].ident@).is_some(),
        out[k].value == Projected::Copied(
            field_value(record, named_fields(decl.data).unwrap()[k].ident@).unwrap(),
        ),
{
    let steps = projection_of(decl).unwrap().steps;
    assert(steps[k] == step_for(named_fields(decl.data).unwrap()[k]));
}

/// A field whose declared type is the optional wrapper holds the source's value
/// where the selection names the field, and nothing where it does not.
pub proof fn lemma_optional_field_follows_selection<V>(
    decl: Declaration,
    k: int,
    record: Seq<SourceField<V>>,
    selected: Set<Seq<char>>,
    out: Seq<ProjectedField<V>>,
)
    requires
        projection_of(decl).is_ok(),
        well_typed(projection_of(decl).unwrap().steps, record),
        is_projection(out, projection_of(decl).unwrap().steps, record, selected),
        0 <= k < named_fields(decl.data).unwrap().len(),
        is_optional(named_fields(decl.data).unwrap()[k].ty),
    ensures
        out[k].name@ == named_fields(decl.data).unwrap()[k].ident@,
        field_value(record, named_fields(decl.data).unwrap()[k].ident@).is_some(),
        selected.contains(named_fields(decl.data).unwrap()[k].ident@) ==> out[k].value
            == Projected::Guarded(
            Some(field_value(record, named_fields(decl.data).unwrap()[k].ident@).unwrap()),
        ),
        !selected.contains(named_fields(decl.data).unwrap()[k].ident@) ==> out[k].value
            == Projected::<V>::Guarded(None),
{
    let steps = projection_of(decl).unwrap().steps;
    assert(steps[k] == step_for(named_fields(decl.data).unwrap()[k]));
}

/// Generation succeeds on every struct with named fields of which some
/// attribute names a source type, whatever its other attributes are. The
/// projection then has one step for each declared field, in declared order.
pub proof fn lemma_named_source_gives_projection(decl: Declaration, a: int)
    requires
        named_fields(decl.data).is_some(),
        0 <= a < decl.attrs@.len(),
        named_source(decl.attrs@[a]).is_some(),
    ensures
        projection_of(decl).is_ok(),
        source_type(decl.attrs@).is_some(),
        projection_of(decl).unwrap().source == source_type(decl.attrs@).unwrap(),
        projection_of(decl).unwrap().steps.len() == named_fields(decl.data).unwrap().len(),
        forall|k: int|
            0 <= k < named_fields(decl.data).unwrap().len() ==> #[trigger] projection_of(
                decl,
            ).unwrap().steps[k] == step_for(named_fields(decl.data).unwrap()[k]),
{
    lemma_source_type_is_first_named(decl.attrs@);
}

/// Generation fails exactly on a declaration without named fields, and on one
/// of which no attribute names a source type; the shape is judged first.
pub proof fn lemma_generation_fails_on(decl: Declaration)
    ensures
        projection_of(decl) == Err::<ProjectionView, DeriveError>(DeriveError::NotNamedFields)
            <==> named_fields(decl.data).is_none(),
        projection_of(decl) == Err::<ProjectionView, DeriveError>(DeriveError::MissingSourceType)
            <==> named_fields(decl.data).is_some() && passed_over(
            decl.attrs@,
            0,
            decl.attrs@.len() as int,
        ),
{
    lemma_source_type_is_first_named(decl.attrs@);
}

/// Of two sequences with the same items, however ordered, the second holds
/// every item of the first, and they are equally long.
proof fn lemma_rearranged_holds_each_item<T>(a: Seq<T>, b: Seq<T>)
    requires
        a.to_multiset() == b.to_multiset(),
    ensures
        a.len() == b.len(),
        forall|i: int| 0 <= i < a.len() ==> b.contains(#[trigger] a[i]),
{
    a.to_multiset_ensures();
    b.to_multiset_ensures();
    assert forall|i: int| 0 <= i < a.len() implies b.contains(#[trigger] a[i]) by {
        assert(a.contains(a[i]));
        assert(b.to_multiset().count(a[i]) > 0);
    }
}

/// Where every field of one declaration is a field of the other, every step of
/// the one's projection is a step of the other's.
proof fn lemma_steps_follow_fields(
    fields_a: Seq<FieldDecl>,
    fields_b: Seq<FieldDecl>,
    steps_a: Seq<StepView>,
    steps_b: Seq<StepView>,
)
    requires
        forall|i: int| 0 <= i < fields_a.len() ==> fields_b.contains(#[trigger] fields_a[i]),
        steps_a == Seq::new(fields_a.len(), |k: int| step_for(fields_a[k])),
        steps_b == Seq::new(fields_b.len(), |k: int| step_for(fields_b[k])),
    ensures
        forall|i: int| 0 <= i < steps_a.len() ==> steps_b.contains(#[trigger] steps_a[i]),
{
    assert forall|i: int| 0 <= i < steps_a.len() implies steps_b.contains(
        #[trigger] steps_a[i],
    ) by {
        assert(fields_b.contains(fields_a[i]));
        let j = choose|j: int| 0 <= j < fields_b.len() && fields_b[j] == fields_a[i];
        assert(steps_b[j] == steps_a[i]);
    }
}

/// Two reduced records agree field by field where every step of the one is a
/// step of the other.
proof fn lemma_same_steps_same_fields<V>(
    steps_a: Seq<StepView>,
    steps_b: Seq<StepView>,
    record: Seq<SourceField<V>>,
    selected: Set<Seq<char>>,
    out_a: Seq<ProjectedField<V>>,
    out_b: Seq<ProjectedField<V>>,
)
    requires
        distinct_names(steps_b),
        forall|i: int| 0 <= i < steps_a.len() ==> steps_b.contains(#[trigger] steps_a[i]),
        is_projection(out_a, steps_a, record, selected),
        is_projection(out_b, steps_b, record, selected),
    ensures
        same_fields(out_a, out_b),
{
    assert forall|i: int| 0 <= i < out_a.len() implies exists|j: int|
        0 <= j < out_b.len() && (#[trigger] out_b[j]).name@ == (#[trigger] out_a[i]).name@ by {
        assert(steps_b.contains(steps_a[i]));
        let j = choose|j: int| 0 <= j < steps_b.len() && steps_b[j] == steps_a[i];
        assert(out_b[j].name@ == steps_b[j].name);
    }
    assert forall|i: int, j: int|
        0 <= i < out_a.len() && 0 <= j < out_b.len() && (#[trigger] out_a[i]).name@ == (
        #[trigger] out_b[j]).name@ implies out_a[i].value == out_b[j].value by {
        assert(steps_b.contains(steps_a[i]));
        let m = choose|m: int| 0 <= m < steps_b.len() && steps_b[m] == steps_a[i];
        assert(steps_b[m].name == steps_b[j].name);
        if m < j {
            assert(steps_b[m].name != steps_b[j].name);
        }
        if j < m {
            assert(steps_b[j].name != steps_b[m].name);
        }
        assert(m == j);
    }
}

/// Every field name of `out_a` is one of `out_b`, and under each name that both
/// have they hold the same value.
pub open spec fn same_fields<V>(out_a: Seq<ProjectedField<V>>, out_b: Seq<ProjectedField<V>>) -> bool {
    &&& forall|i: int|
        0 <= i < out_a.len() ==> exists|j: int|
            0 <= j < out_b.len() && (#[trigger] out_b[j]).name@ == (#[trigger] out_a[i]).name@
    &&& forall|i: int, j: int|
        0 <= i < out_a.len() && 0 <= j < out_b.len() && (#[trigger] out_a[i]).name@ == (
        #[trigger] out_b[j]).name@ ==> out_a[i].value == out_b[j].value
}

/// The order of a projection's steps does not change what the fields hold:
/// where one projection's steps are the other's in another order, the two
/// reduced records of one source and one selection are equally long, have the
/// same field names, and hold under each name the same value.
pub proof fn lemma_step_order_is_irrelevant<V>(
    steps_a: Seq<StepView>,
    steps_b: Seq<StepView>,
    record: Seq<SourceField<V>>,
    selected: Set<Seq<char>>,
    out_a: Seq<ProjectedField<V>>,
    out_b: Seq<ProjectedField<V>>,
)
    requires
        distinct_names(steps_a),
        distinct_names(steps_b),
        steps_a.to_multiset() == steps_b.to_multiset(),
        is_projection(out_a, steps_a, record, selected),
        is_projection(out_b, steps_b, record, selected),
    ensures
        out_a.len() == out_b.len(),
        same_fields(out_a, out_b),
        same_fields(out_b, out_a),
{
    lemma_rearranged_holds_each_item(steps_a, steps_b);
    lemma_rearranged_holds_each_item(steps_b, steps_a);
    lemma_same_steps_same_fields(steps_a, steps_b, record, selected, out_a, out_b);
    lemma_same_steps_same_fields(steps_b, steps_a, record, selected, out_b, out_a);
}

/// The order of the fields in a declaration does not change what they hold:
/// where two declarations have the same fields in another order, the reduced
/// records that their projections make of one source and one selection are
/// equally long, have the same field names, and hold under each name the same
/// value.
pub proof fn lemma_field_order_is_irrelevant<V>(
    decl_a: Declaration,
    decl_b: Declaration,
    record: Seq<SourceField<V>>,
    selected: Set<Seq<char>>,
    out_a: Seq<ProjectedField<V>>,
    out_b: Seq<ProjectedField<V>>,
)
    requires
        projection_of(decl_a).is_ok(),
        projection_of(decl_b).is_ok(),
        named_fields(decl_a.data).unwrap().to_multiset() == named_fields(
            decl_b.data,
        ).unwrap().to_multiset(),
        distinct_names(projection_of(decl_a).unwrap().steps),
        distinct_names(projection_of(decl_b).unwrap().steps),
        is_projection(out_a, projection_of(decl_a).unwrap().steps, record, selected),
        is_projection(out_b, projection_of(decl_b).unwrap().steps, record, selected),
    ensures
        out_a.len() == out_b.len(),
        same_fields(out_a, out_b),
        same_fields(out_b, out_a),
{
    let fields_a = named_fields(decl_a.data).unwrap();
    let fields_b = named_fields(decl_b.data).unwrap();
    let steps_a = projection_of(decl_a).unwrap().steps;
    let steps_b = projection_of(decl_b).unwrap().steps;
    lemma_rearranged_holds_each_item(fields_a, fields_b);
    lemma_rearranged_holds_each_item(fields_b, fields_a);
    lemma_steps_follow_fields(fields_a, fields_b, steps_a, steps_b);
    lemma_steps_follow_fields(fields_b, fields_a, steps_b, steps_a);
    lemma_same_steps_same_fields(steps_a, steps_b, record, selected, out_a, out_b);
    lemma_same_steps_same_fields(steps_b, steps_a, record, selected, out_b, out_a);
}

} // verus!
