//! From the declaration of a reduced record to its projection: which source
//! type it is filled from, and how each of its fields is filled.

use vstd::prelude::*;
use crate::attrs::{get_object_path, source_type, Attribute};
use crate::shape::{ty_inner_type, wrapped_inner, PathExpr, TypeExpr};

verus! {

/// A named field of a record declaration.
#[derive(Debug, PartialEq, Eq)]
pub struct FieldDecl {
    pub ident: String,
    pub ty: TypeExpr,
}

/// The fields of a struct declaration.
#[derive(Debug, PartialEq, Eq)]
pub enum Fields {
    /// Named fields in braces.
    Named(Vec<FieldDecl>),
    /// Unnamed fields in round brackets.
    Unnamed,
    /// No fields at all.
    Unit,
}

/// What kind of item a declaration declares.
#[derive(Debug, PartialEq, Eq)]
pub enum Data {
    Struct(Fields),
    Enum,
    Union,
}

/// The declaration of a reduced record, with its attributes.
#[derive(Debug, PartialEq, Eq)]
pub struct Declaration {
    pub ident: String,
    pub attrs: Vec<Attribute>,
    pub data: Data,
}

/// How a field of the reduced record is filled.
#[derive(Clone, Copy, Debug, PartialEq, Eq, Structural)]
pub enum Strategy {
    /// The source's value is copied through, whatever was selected.
    Always,
    /// The source's value is handed on only where the field was selected.
    IfSelected,
}

/// One field of a projection.
#[derive(Debug, PartialEq, Eq)]
pub struct FieldStep<'a> {
    pub name: &'a String,
    pub strategy: Strategy,
}

/// The projection that a declaration stands for.
#[derive(Debug, PartialEq, Eq)]
pub struct Projection<'a> {
    /// The name of the reduced record.
    pub target: &'a String,
    /// The type of the records it is filled from.
    pub source: &'a PathExpr,
    /// Its fields, in the order of the declaration.
    pub steps: Vec<FieldStep<'a>>,
}

/// Why a declaration has no projection.
#[derive(Clone, Copy, Debug, PartialEq, Eq, Structural)]
pub enum DeriveError {
    /// The declaration is no struct with named fields.
    NotNamedFields,
    /// `#[field_filterable_on(<TYPE>)]` must be set.
    MissingSourceType,
}

/// What is said to the author of a declaration that has no projection.
pub open spec fn message_of(e: DeriveError) -> Seq<char> {
    match e {
        DeriveError::MissingSourceType =>
            "not implemented: #[field_filterable_on(<TYPE>)] must be set"@,
        DeriveError::NotNamedFields => "not implemented"@,
    }
}

impl DeriveError {
    /// What is said to the author of the declaration.
    pub fn message(&self) -> (r: &'static str)
        ensures
            r@ == message_of(*self),
    {
        match self {
            DeriveError::MissingSourceType =>
                "not implemented: #[field_filterable_on(<TYPE>)] must be set",
            DeriveError::NotNamedFields => "not implemented",
        }
    }
}

/// A field of a projection as a plain value.
pub ghost struct StepView {
    pub name: Seq<char>,
    pub strategy: Strategy,
}

/// A projection as a plain value.
pub ghost struct ProjectionView {
    pub target: Seq<char>,
    pub source: PathExpr,
    pub steps: Seq<StepView>,
}

impl<'a> View for FieldStep<'a> {
    type V = StepView;

    open spec fn view(&self) -> StepView {
        StepView { name: self.name@, strategy: self.strategy }
    }
}

impl<'a> View for Projection<'a> {
    type V = ProjectionView;

    open spec fn view(&self) -> ProjectionView {
        ProjectionView {
            target: self.target@,
            source: *self.source,
            steps: Seq::new(self.steps@.len(), |k: int| self.steps@[k]@),
        }
    }
}

/// The name of the wrapper that marks a field as guarded by the selection.
pub open spec fn optional_wrapper() -> Seq<char> {
    "Option"@
}

/// Whether a declared type is the optional wrapper around some inner type.
/// Only the outermost wrapper counts.
pub open spec fn is_optional(ty: TypeExpr) -> bool {
    wrapped_inner(optional_wrapper(), ty).is_some()
}

/// How a field of the given declared type is filled.
pub open spec fn strategy_for(ty: TypeExpr) -> Strategy {
    if is_optional(ty) {
        Strategy::IfSelected
    } else {
        Strategy::Always
    }
}

/// The step that stands for a declared field.
pub open spec fn step_for(field: FieldDecl) -> StepView {
    StepView { name: field.ident@, strategy: strategy_for(field.ty) }
}

/// The named fields of a declaration, where it is a struct that has them.
pub open spec fn named_fields(data: Data) -> Option<Seq<FieldDecl>> {
    match data {
        Data::Struct(Fields::Named(fields)) => Some(fields@),
        _ => None,
    }
}

/// The projection that a declaration stands for, or why it has none. The shape
/// is looked at first: a declaration without named fields has that error,
/// whatever its attributes are. Every struct with named fields that names a
/// source type has a projection.
pub open spec fn projection_of(decl: Declaration) -> Result<ProjectionView, DeriveError> {
    match named_fields(decl.data) {
        None => Err(DeriveError::NotNamedFields),
        Some(fields) => match source_type(decl.attrs@) {
            None => Err(DeriveError::MissingSourceType),
            Some(source) => Ok(
                ProjectionView {
                    target: decl.ident@,
                    source,
                    steps: Seq::new(fields.len(), |k: int| step_for(fields[k])),
                },
            ),
        },
    }
}

/// Decides how a field of the given declared type is filled.
pub fn field_strategy(ty: &TypeExpr) -> (r: Strategy)
    ensures
        r == strategy_for(*ty),
{
    match ty_inner_type("Option", ty) {
        Some(_) => Strategy::IfSelected,
        None => Strategy::Always,
    }
}

/// Reads a declaration once and fixes its projection: the declaration must be
/// a struct with named fields; then the source type is the one that the
/// attribute `field_filterable_on` names; and each named field, in declared
/// order, is either copied through or guarded by the selection.
pub fn derive_field_filterable_impl<'a>(decl: &'a Declaration) -> (r: Result<
    Projection<'a>,
    DeriveError,
>)
    ensures
        match r {
            Ok(p) => projection_of(*decl) == Ok::<ProjectionView, DeriveError>(p@),
            Err(e) => projection_of(*decl) == Err::<ProjectionView, DeriveError>(e),
        },
{
    let fields = match &decl.data {
        Data::Struct(Fields::Named(named)) => named,
        _ => {
            return Err(DeriveError::NotNamedFields);
        },
    };
    let source = match get_object_path(&decl.attrs) {
        Some(p) => p,
        None => {
            return Err(DeriveError::MissingSourceType);
        },
    };
    let mut steps: Vec<FieldStep<'a>> = Vec::new();
    let mut i: usize = 0;
    while i < fields.len()
        invariant
            i <= fields.len(),
            steps@.len() == i,
            forall|k: int| 0 <= k < i ==> (#[trigger] steps@[k])@ == step_for(fields@[k]),
        decreases fields.len() - i,
    {
        let strategy = field_strategy(&fields[i].ty);
        steps.push(FieldStep { name: &fields[i].ident, strategy });
        i += 1;
    }
    let p = Projection { target: &decl.ident, source, steps };
    proof {
        assert(p@.steps =~= Seq::new(fields@.len(), |k: int| step_for(fields@[k])));
    }
    Ok(p)
}

} // verus!
