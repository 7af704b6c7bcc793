//! Attributes of a declaration, and the search for the one that names the
//! source type.

use vstd::prelude::*;
use crate::shape::{get_single_segment, same_text, single_segment, PathExpr};

verus! {

/// The content of an attribute.
#[derive(Debug, PartialEq, Eq)]
pub enum Meta {
    /// A bare path, as in `#[test]`.
    Path(PathExpr),
    /// A path with a list in round brackets, as in `#[derive(Clone, Copy)]`.
    List(MetaList),
    /// A path with a value, as in `#[doc = "text"]`.
    NameValue,
}

/// A path followed by a list of items in round brackets.
#[derive(Debug, PartialEq, Eq)]
pub struct MetaList {
    pub path: PathExpr,
    pub nested: Vec<NestedMeta>,
}

/// One item of such a list.
#[derive(Debug, PartialEq, Eq)]
pub enum NestedMeta {
    /// Structured content, as the `Clone` in `#[derive(Clone)]`.
    Meta(Meta),
    /// A literal, as the `"text"` in `#[cfg_attr(a, "text")]`.
    Lit,
}

/// An attribute of a declaration.
#[derive(Debug, PartialEq, Eq)]
pub enum Attribute {
    /// One whose content has the structure of a [`Meta`].
    Parsed(Meta),
    /// One whose content has no such structure. It names no source type.
    Malformed,
}

/// The name of the attribute that carries the source type.
pub open spec fn source_attr_name() -> Seq<char> {
    "field_filterable_on"@
}

/// The first bare path among `nested[from..]`.
pub open spec fn first_path_from(nested: Seq<NestedMeta>, from: int) -> Option<PathExpr>
    decreases nested.len() - from,
{
    if from < 0 || from >= nested.len() {
        None
    } else {
        match nested[from] {
            NestedMeta::Meta(Meta::Path(p)) => Some(p),
            _ => first_path_from(nested, from + 1),
        }
    }
}

/// The source type that one attribute names: the first bare path in the list
/// of an attribute whose own path is the single segment `field_filterable_on`.
pub open spec fn named_source(attr: Attribute) -> Option<PathExpr> {
    match attr {
        Attribute::Parsed(Meta::List(list)) => if single_segment(list.path) == Some(
            source_attr_name(),
        ) {
            first_path_from(list.nested@, 0)
        } else {
            None
        },
        _ => None,
    }
}

/// The outcome of the search through `attrs[from..]`, front to back: the source
/// type of the first attribute that names one.
pub open spec fn source_type_from(attrs: Seq<Attribute>, from: int) -> Option<PathExpr>
    decreases attrs.len() - from,
{
    if from < 0 || from >= attrs.len() {
        None
    } else {
        match named_source(attrs[from]) {
            Some(p) => Some(p),
            None => source_type_from(attrs, from + 1),
        }
    }
}

/// The outcome of the search through all of `attrs`.
pub open spec fn source_type(attrs: Seq<Attribute>) -> Option<PathExpr> {
    source_type_from(attrs, 0)
}

/// Whether a nested item is a bare path.
pub open spec fn is_bare_path(item: NestedMeta) -> bool {
    item matches NestedMeta::Meta(Meta::Path(_))
}

/// None of `attrs[lo..hi]` names a source type.
pub open spec fn passed_over(attrs: Seq<Attribute>, lo: int, hi: int) -> bool {
    forall|b: int| lo <= b < hi ==> named_source(#[trigger] attrs[b]).is_none()
}

/// The first bare path of a list, from a place on, is the bare path before
/// which, from that place on, no other stands.
proof fn lemma_first_path_from(nested: Seq<NestedMeta>, from: int)
    requires
        0 <= from <= nested.len(),
    ensures
        match first_path_from(nested, from) {
            Some(p) => exists|i: int|
                from <= i < nested.len() && #[trigger] nested[i] == NestedMeta::Meta(Meta::Path(p))
                    && forall|j: int| from <= j < i ==> !is_bare_path(#[trigger] nested[j]),
            None => forall|j: int| from <= j < nested.len() ==> !is_bare_path(#[trigger] nested[j]),
        },
    decreases nested.len() - from,
{
    if from < nested.len() {
        match nested[from] {
            NestedMeta::Meta(Meta::Path(p)) => {
                assert(nested[from] == NestedMeta::Meta(Meta::Path(p)));
            },
            _ => {
                lemma_first_path_from(nested, from + 1);
                match first_path_from(nested, from + 1) {
                    Some(p) => {
                        let i = choose|i: int|
                            from + 1 <= i < nested.len() && #[trigger] nested[i]
                                == NestedMeta::Meta(Meta::Path(p)) && forall|j: int|
                                from + 1 <= j < i ==> !is_bare_path(#[trigger] nested[j]);
                        assert(forall|j: int| from <= j < i ==> !is_bare_path(#[trigger] nested[j]));
                    },
                    None => {},
                }
            },
        }
    }
}

/// The first bare path of a list is the bare path before which no other
/// stands; there is none exactly where no item is a bare path.
pub proof fn lemma_first_path(nested: Seq<NestedMeta>)
    ensures
        match first_path_from(nested, 0) {
            Some(p) => exists|i: int|
                0 <= i < nested.len() && #[trigger] nested[i] == NestedMeta::Meta(Meta::Path(p))
                    && forall|j: int| 0 <= j < i ==> !is_bare_path(#[trigger] nested[j]),
            None => forall|j: int| 0 <= j < nested.len() ==> !is_bare_path(#[trigger] nested[j]),
        },
{
    lemma_first_path_from(nested, 0);
}

/// What the search from a place on yields is the source type of the first
/// attribute, from that place on, that names one.
proof fn lemma_source_type_from(attrs: Seq<Attribute>, from: int)
    requires
        0 <= from <= attrs.len(),
    ensures
        match source_type_from(attrs, from) {
            Some(p) => exists|a: int|
                from <= a < attrs.len() && named_source(#[trigger] attrs[a]) == Some(p)
                    && passed_over(attrs, from, a),
            None => passed_over(attrs, from, attrs.len() as int),
        },
    decreases attrs.len() - from,
{
    if from < attrs.len() {
        if named_source(attrs[from]).is_some() {
            assert(passed_over(attrs, from, from));
        } else {
            lemma_source_type_from(attrs, from + 1);
            match source_type_from(attrs, from + 1) {
                Some(p) => {
                    let a = choose|a: int|
                        from + 1 <= a < attrs.len() && named_source(#[trigger] attrs[a]) == Some(p)
                            && passed_over(attrs, from + 1, a);
                    assert(passed_over(attrs, from, a));
                },
                None => {
                    assert(passed_over(attrs, from, attrs.len() as int));
                },
            }
        }
    }
}

/// The search yields the source type of the first attribute that names one,
/// whatever stands before it. Where no attribute names one, there is none.
pub proof fn lemma_source_type_is_first_named(attrs: Seq<Attribute>)
    ensures
        match source_type(attrs) {
            Some(p) => exists|a: int|
                0 <= a < attrs.len() && named_source(#[trigger] attrs[a]) == Some(p)
                    && passed_over(attrs, 0, a),
            None => passed_over(attrs, 0, attrs.len() as int),
        },
{
    lemma_source_type_from(attrs, 0);
}

/// The search from a place on passes over every attribute that names no
/// source type.
proof fn lemma_search_skips(attrs: Seq<Attribute>, from: int, a: int)
    requires
        0 <= from <= a < attrs.len(),
        passed_over(attrs, from, a),
    ensures
        source_type_from(attrs, from) == source_type_from(attrs, a),
    decreases a - from,
{
    if from < a {
        assert(named_source(attrs[from]).is_none());
        lemma_search_skips(attrs, from + 1, a);
    }
}

/// An attribute that names a source type, with none before it that names
/// one, decides the search.
pub proof fn lemma_first_named_is_source_type(attrs: Seq<Attribute>, a: int)
    requires
        0 <= a < attrs.len(),
        named_source(attrs[a]).is_some(),
        passed_over(attrs, 0, a),
    ensures
        source_type(attrs) == named_source(attrs[a]),
{
    lemma_search_skips(attrs, 0, a);
}

/// The first bare path in a list of nested items.
fn first_path<'a>(nested: &'a Vec<NestedMeta>) -> (r: Option<&'a PathExpr>)
    ensures
        match r {
            Some(p) => first_path_from(nested@, 0) == Some(*p),
            None => first_path_from(nested@, 0).is_none(),
        },
{
    let mut i: usize = 0;
    while i < nested.len()
        invariant
            i <= nested.len(),
            first_path_from(nested@, 0) == first_path_from(nested@, i as int),
        decreases nested.len() - i,
    {
        if let NestedMeta::Meta(Meta::Path(p)) = &nested[i] {
            return Some(p);
        }
        i += 1;
    }
    None
}

/// Finds the source type among the attributes of a declaration.
///
/// The attributes are searched in order for a list named `field_filterable_on`
/// that holds a bare path. Every other attribute is passed over: one of
/// another name, one that could not be read, and one of that name without a
/// bare path.
pub fn get_object_path<'a>(attrs: &'a Vec<Attribute>) -> (r: Option<&'a PathExpr>)
    ensures
        match r {
            Some(p) => source_type(attrs@) == Some(*p),
            None => source_type(attrs@).is_none(),
        },
{
    let mut i: usize = 0;
    while i < attrs.len()
        invariant
            i <= attrs.len(),
            source_type(attrs@) == source_type_from(attrs@, i as int),
        decreases attrs.len() - i,
    {
        if let Attribute::Parsed(Meta::List(list)) = &attrs[i] {
            let hit = match get_single_segment(&list.path) {
                Some(seg) => same_text(seg, "field_filterable_on"),
                None => false,
            };
            if hit {
                if let Some(p) = first_path(&list.nested) {
                    return Some(p);
                }
            }
        }
        i += 1;
    }
    None
}

} // verus!
