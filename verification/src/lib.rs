//! Field filtering: a reduced record is built from a full one and a set of
//! requested field names; fields that were not requested are emptied, not left out.
//!
//! A declaration of the reduced record is inspected once
//! ([`generate::derive_field_filterable_impl`]), which fixes for every field
//! whether it is copied through or guarded by the selection. The resulting
//! projection is then applied to source records ([`project::field_filter`]).

use std::collections::HashSet;
use vstd::prelude::*;

pub mod attrs;
pub mod generate;
pub mod laws;
pub mod project;
pub mod shape;

verus! {

/// A record that is made by filtering a record of type `T` given a set of
/// field names.
pub trait FieldFilterable<T>: Sized {
    /// Builds the reduced record from `o`, keeping the guarded fields that
    /// `fields` names and emptying the others.
    fn field_filter(o: T, fields: HashSet<String>) -> Self;
}

} // verus!
