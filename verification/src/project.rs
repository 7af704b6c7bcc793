//! Applying a projection: from a source record and a selection of field names
//! to the reduced record.

use vstd::prelude::*;
use vstd::hash_set::StringHashSet;
use crate::generate::{Projection, StepView, Strategy};
use crate::shape::same_text;

verus! {

/// The set of field names that a caller asks for. Only membership matters.
pub struct FieldSelection {
    names: StringHashSet,
}

impl View for FieldSelection {
    type V = Set<Seq<char>>;

    closed spec fn view(&self) -> Set<Seq<char>> {
        self.names@
    }
}

impl FieldSelection {
    /// The selection that asks for nothing.
    pub fn new() -> (r: Self)
        ensures
            r@ == Set::<Seq<char>>::empty(),
    {
        FieldSelection { names: StringHashSet::new() }
    }

    /// Asks for one more field. Asking twice is asking once.
    pub fn insert(&mut self, name: String)
        ensures
            final(self)@ == old(self)@.insert(name@),
    {
        self.names.insert(name);
    }

    /// Whether the field of that name was asked for.
    pub fn contains(&self, name: &str) -> (r: bool)
        ensures
            r == self@.contains(name@),
    {
        self.names.contains(name)
    }

    /// The selection of exactly the given names.
    pub fn from_names(names: Vec<String>) -> (r: Self)
        ensures
            r@ == Set::new(|n: Seq<char>| exists|i: int| 0 <= i < names@.len() && names@[i]@ == n),
    {
        let mut r = FieldSelection::new();
        let mut i: usize = 0;
        while i < names.len()
            invariant
                i <= names.len(),
                r@ == Set::new(|n: Seq<char>| exists|j: int| 0 <= j < i && names@[j]@ == n),
            decreases names.len() - i,
        {
            let ghost before = r@;
            r.insert(names[i].clone());
            proof {
                let after = Set::new(
                    |n: Seq<char>| exists|j: int| 0 <= j < i + 1 && names@[j]@ == n,
                );
                assert forall|n: Seq<char>| after.contains(n) <==> before.insert(
                    names@[i as int]@,
                ).contains(n) by {
                    if after.contains(n) {
                        let j = choose|j: int| 0 <= j < i + 1 && names@[j]@ == n;
                        if j < i {
                            assert(before.contains(n));
                        }
                    }
                    if before.contains(n) {
                        let j = choose|j: int| 0 <= j < i && names@[j]@ == n;
                        assert(0 <= j < i + 1 && names@[j]@ == n);
                    }
                    if n == names@[i as int]@ {
                        assert(0 <= i < i + 1 && names@[i as int]@ == n);
                    }
                }
                assert(r@ =~= after);
            }
            i += 1;
        }
        r
    }
}

/// A field of a source record: its name and the value it holds.
#[derive(Debug, PartialEq)]
pub struct SourceField<V> {
    pub name: String,
    pub value: V,
}

/// The value of a field of the reduced record.
#[derive(Debug, PartialEq)]
pub enum Projected<V> {
    /// The source's value, copied through.
    Copied(V),
    /// A guarded field: the source's value where the field was selected,
    /// nothing where it was not.
    Guarded(Option<V>),
}

/// A field of the reduced record.
#[derive(Debug, PartialEq)]
pub struct ProjectedField<V> {
    pub name: String,
    pub value: Projected<V>,
}

/// The value that a record holds under a name: that of the first field so named.
pub open spec fn field_value<V>(record: Seq<SourceField<V>>, name: Seq<char>) -> Option<V>
    decreases record.len(),
{
    if record.len() == 0 {
        None
    } else if record[0].name@ == name {
        Some(record[0].value)
    } else {
        field_value(record.drop_first(), name)
    }
}

/// No two steps fill a field of the same name.
pub open spec fn distinct_names(steps: Seq<StepView>) -> bool {
    forall|j: int, k: int|
        0 <= j < k < steps.len() ==> (#[trigger] steps[j]).name != (#[trigger] steps[k]).name
}

/// A record is a source for the steps: it has a field for each of them, and no
/// field is asked for twice.
pub open spec fn well_typed<V>(steps: Seq<StepView>, record: Seq<SourceField<V>>) -> bool {
    &&& distinct_names(steps)
    &&& forall|k: int| 0 <= k < steps.len() ==> field_value(record, (#[trigger] steps[k]).name).is_some()
}

/// What one step makes of the source's value `v` under the selection `selected`.
pub open spec fn step_value<V>(step: StepView, v: V, selected: Set<Seq<char>>) -> Projected<V> {
    match step.strategy {
        Strategy::Always => Projected::Copied(v),
        Strategy::IfSelected => if selected.contains(step.name) {
            Projected::Guarded(Some(v))
        } else {
            Projected::Guarded(None)
        },
    }
}

/// The value of the field that a step fills from a record.
pub open spec fn projected_value<V>(
    step: StepView,
    record: Seq<SourceField<V>>,
    selected: Set<Seq<char>>,
) -> Projected<V>
    recommends
        field_value(record, step.name).is_some(),
{
    step_value(step, field_value(record, step.name).unwrap(), selected)
}

/// `out` is the reduced record that the steps make of a source record under a
/// selection: one field for each step, in the steps' order, under the step's
/// name and with the value that the step gives it.
pub open spec fn is_projection<V>(
    out: Seq<ProjectedField<V>>,
    steps: Seq<StepView>,
    record: Seq<SourceField<V>>,
    selected: Set<Seq<char>>,
) -> bool {
    &&& out.len() == steps.len()
    &&& forall|k: int|
        0 <= k < out.len() ==> (#[trigger] out[k]).name@ == steps[k].name && out[k].value
            == projected_value(steps[k], record, selected)
}

/// Taking out a field of another name leaves the value under `name` as it was.
proof fn lemma_remove_other<V>(record: Seq<SourceField<V>>, i: int, name: Seq<char>)
    requires
        0 <= i < record.len(),
        record[i].name@ != name,
    ensures
        field_value(record.remove(i), name) == field_value(record, name),
    decreases record.len(),
{
    let rest = record.remove(i);
    if i == 0 {
        assert(rest =~= record.drop_first());
    } else {
        assert(rest[0] == record[0]);
        assert(rest.drop_first() =~= record.drop_first().remove(i - 1));
        if record[0].name@ != name {
            lemma_remove_other(record.drop_first(), i - 1, name);
        }
    }
}

/// The first field of a name is the one whose value the record holds under it.
proof fn lemma_first_match<V>(record: Seq<SourceField<V>>, i: int, name: Seq<char>)
    requires
        0 <= i < record.len(),
        record[i].name@ == name,
        forall|j: int| 0 <= j < i ==> record[j].name@ != name,
    ensures
        field_value(record, name) == Some(record[i].value),
    decreases i,
{
    if i > 0 {
        let rest = record.drop_first();
        assert(rest[i - 1] == record[i]);
        assert forall|j: int| 0 <= j < i - 1 implies rest[j].name@ != name by {
            assert(rest[j] == record[j + 1]);
        }
        lemma_first_match(rest, i - 1, name);
    }
}

/// A record in which no field has the name holds nothing under it.
proof fn lemma_no_match<V>(record: Seq<SourceField<V>>, name: Seq<char>)
    requires
        forall|j: int| 0 <= j < record.len() ==> record[j].name@ != name,
    ensures
        field_value(record, name).is_none(),
    decreases record.len(),
{
    if record.len() > 0 {
        let rest = record.drop_first();
        assert forall|j: int| 0 <= j < rest.len() implies rest[j].name@ != name by {
            assert(rest[j] == record[j + 1]);
        }
        lemma_no_match(rest, name);
    }
}

/// The place of the first field of that name.
fn find_field<V>(record: &Vec<SourceField<V>>, name: &String) -> (r: Option<usize>)
    ensures
        match r {
            Some(i) => i < record@.len() && field_value(record@, name@) == Some(
                record@[i as int].value,
            ) && record@[i as int].name@ == name@,
            None => field_value(record@, name@).is_none(),
        },
{
    let mut i: usize = 0;
    while i < record.len()
        invariant
            i <= record.len(),
            forall|j: int| 0 <= j < i ==> record@[j].name@ != name@,
        decreases record.len() - i,
    {
        if same_text(&record[i].name, name.as_str()) {
            proof {
                lemma_first_match(record@, i as int, name@);
            }
            return Some(i);
        }
        i += 1;
    }
    proof {
        lemma_no_match(record@, name@);
    }
    None
}

/// Whether a record is a source for a projection: it has a field for every
/// field of the projection, and the projection fills no name twice.
pub fn accepts<V>(plan: &Projection<'_>, o: &Vec<SourceField<V>>) -> (r: bool)
    ensures
        r == well_typed(plan@.steps, o@),
{
    let mut k: usize = 0;
    while k < plan.steps.len()
        invariant
            k <= plan.steps.len(),
            plan@.steps.len() == plan.steps@.len(),
            forall|a: int| 0 <= a < plan.steps@.len() ==> (#[trigger] plan@.steps[a]) == plan.steps@[a]@,
            forall|a: int, b: int|
                0 <= a < b < k ==> (#[trigger] plan@.steps[a]).name != (#[trigger] plan@.steps[b]).name,
            forall|a: int| 0 <= a < k ==> field_value(o@, (#[trigger] plan@.steps[a]).name).is_some(),
        decreases plan.steps.len() - k,
    {
        if find_field(o, plan.steps[k].name).is_none() {
            assert(plan@.steps[k as int].name == plan.steps@[k as int].name@);
            return false;
        }
        let mut j: usize = 0;
        while j < k
            invariant
                j <= k < plan.steps.len(),
                plan@.steps.len() == plan.steps@.len(),
                forall|a: int| 0 <= a < plan.steps@.len() ==> (#[trigger] plan@.steps[a]) == plan.steps@[a]@,
                forall|a: int| 0 <= a < j ==> (#[trigger] plan@.steps[a]).name != plan@.steps[k as int].name,
            decreases k - j,
        {
            if same_text(plan.steps[j].name, plan.steps[k].name.as_str()) {
                assert(plan@.steps[j as int].name == plan@.steps[k as int].name);
                return false;
            }
            j += 1;
        }
        k += 1;
    }
    true
}

/// Builds the reduced record from a source record and a selection.
///
/// Every field of the projection is filled, in its order, from the source's
/// field of the same name. A field that is copied through holds the source's
/// value whatever was selected. A guarded field holds the source's value where
/// its name is in the selection, and nothing where it is not. The source is
/// used up either way.
pub fn field_filter<V>(plan: &Projection<'_>, o: Vec<SourceField<V>>, fields: &FieldSelection) -> (out:
    Vec<ProjectedField<V>>)
    requires
        well_typed(plan@.steps, o@),
    ensures
        is_projection(out@, plan@.steps, o@, fields@),
{
    let mut rest = o;
    let mut out: Vec<ProjectedField<V>> = Vec::new();
    let mut k: usize = 0;
    while k < plan.steps.len()
        invariant
            k <= plan.steps.len(),
            plan@.steps.len() == plan.steps@.len(),
            forall|a: int| 0 <= a < plan.steps@.len() ==> (#[trigger] plan@.steps[a]) == plan.steps@[a]@,
            distinct_names(plan@.steps),
            out@.len() == k,
            forall|a: int|
                k <= a < plan.steps@.len() ==> field_value(rest@, (#[trigger] plan@.steps[a]).name)
                    == field_value(o@, plan@.steps[a].name) && field_value(
                    o@,
                    plan@.steps[a].name,
                ).is_some(),
            forall|a: int|
                0 <= a < k ==> (#[trigger] out@[a]).name@ == plan@.steps[a].name && out@[a].value
                    == projected_value(plan@.steps[a], o@, fields@),
        decreases plan.steps.len() - k,
    {
        let step = &plan.steps[k];
        assert(plan@.steps[k as int] == step@);
        let i = find_field(&rest, step.name).unwrap();
        let ghost before = rest@;
        let taken = rest.remove(i);
        proof {
            assert forall|a: int| k < a < plan.steps@.len() implies field_value(
                rest@,
                (#[trigger] plan@.steps[a]).name,
            ) == field_value(o@, plan@.steps[a].name) by {
                assert(plan@.steps[k as int].name != plan@.steps[a].name);
                lemma_remove_other(before, i as int, plan@.steps[a].name);
            }
        }
        let value = match step.strategy {
            Strategy::Always => Projected::Copied(taken.value),
            Strategy::IfSelected => if fields.contains(step.name.as_str()) {
                Projected::Guarded(Some(taken.value))
            } else {
                Projected::Guarded(None)
            },
        };
        out.push(ProjectedField { name: step.name.clone(), value });
        k += 1;
    }
    out
}

} // verus!
