//! Structural description of declared types, and the test for a generic
//! wrapper around a single inner type.

use vstd::prelude::*;

verus! {

/// A path such as `Option` or `std::option::Option`, segment by segment.
#[derive(Debug, PartialEq, Eq)]
pub struct PathExpr {
    /// Whether the path starts with `::`. No test on a path's shape reads it.
    pub leading_colon: bool,
    pub segments: Vec<PathSegment>,
}

/// One segment of a path: an identifier and what follows it in brackets.
#[derive(Debug, PartialEq, Eq)]
pub struct PathSegment {
    pub ident: String,
    pub arguments: PathArguments,
}

/// What follows the identifier of a path segment.
#[derive(Debug, PartialEq, Eq)]
pub enum PathArguments {
    /// Nothing, as in `String`.
    Bare,
    /// Arguments in angle brackets, as in `Option<String>`.
    AngleBracketed(Vec<GenericArgument>),
    /// Arguments in round brackets, as in `Fn(u32) -> u32`.
    Parenthesized,
}

/// One argument between angle brackets.
#[derive(Debug, PartialEq, Eq)]
pub enum GenericArgument {
    /// A type, as the `String` in `Option<String>`.
    Type(TypeExpr),
    /// A lifetime, as the `'a` in `Cow<'a, str>`.
    Lifetime,
    /// A constant expression, as the `4` in `Matrix<4>`.
    Const,
    /// An associated type binding or constraint.
    Binding,
}

/// A declared type, as far as its shape matters here.
#[derive(Debug, PartialEq, Eq)]
pub enum TypeExpr {
    /// A type written as a path.
    Path(PathExpr),
    /// Any other form: a reference, a tuple, an array and so on.
    Other,
}

/// Whether a string holds the same text as a string slice.
pub(crate) fn same_text(a: &String, b: &str) -> (r: bool)
    ensures
        r == (a@ == b@),
{
    let owned = b.to_owned();
    *a == owned
}

/// The identifier of a path that has exactly one segment.
pub open spec fn single_segment(path: PathExpr) -> Option<Seq<char>> {
    if path.segments@.len() == 1 {
        Some(path.segments@[0].ident@)
    } else {
        None
    }
}

/// The identifier of `path` if it has exactly one segment, and nothing otherwise.
pub fn get_single_segment(path: &PathExpr) -> (r: Option<&String>)
    ensures
        match r {
            Some(s) => single_segment(*path) == Some(s@),
            None => single_segment(*path).is_none(),
        },
{
    if path.segments.len() == 1 {
        Some(&path.segments[0].ident)
    } else {
        None
    }
}

/// The inner type of `ty` where `ty` is `wrapper<Inner>`: a path of exactly one
/// segment named `wrapper` that carries exactly one argument in angle brackets,
/// and that argument is a type. A qualified path never matches, whatever it
/// ends in.
pub open spec fn wrapped_inner(wrapper: Seq<char>, ty: TypeExpr) -> Option<TypeExpr> {
    match ty {
        TypeExpr::Path(p) => if single_segment(p) == Some(wrapper) {
            match p.segments@[0].arguments {
                PathArguments::AngleBracketed(args) => if args@.len() == 1 {
                    match args@[0] {
                        GenericArgument::Type(inner) => Some(inner),
                        _ => None,
                    }
                } else {
                    None
                },
                _ => None,
            }
        } else {
            None
        },
        TypeExpr::Other => None,
    }
}

/// Matches `ty` against `wrapper<Inner>` and hands back `Inner`.
pub fn ty_inner_type<'a>(wrapper: &str, ty: &'a TypeExpr) -> (r: Option<&'a TypeExpr>)
    ensures
        match r {
            Some(inner) => wrapped_inner(wrapper@, *ty) == Some(*inner),
            None => wrapped_inner(wrapper@, *ty).is_none(),
        },
{
    if let TypeExpr::Path(p) = ty {
        if p.segments.len() != 1 {
            return None;
        }
        if !same_text(&p.segments[0].ident, wrapper) {
            return None;
        }
        if let PathArguments::AngleBracketed(args) = &p.segments[0].arguments {
            if args.len() != 1 {
                return None;
            }
            if let GenericArgument::Type(inner) = &args[0] {
                return Some(inner);
            }
        }
    }
    None
}

} // verus!
