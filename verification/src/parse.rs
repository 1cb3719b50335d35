use crate::shape::{ItemShape, TopLevelItem, TypeExpr};
use vstd::prelude::*;

verus! {

/// `syn::Error`, the parser's error. Nothing is read from it.
#[verifier::external_type_specification]
#[verifier::external_body]
pub struct ExSynError(syn::Error);

/// `syn::Type`, a type expression of the parser's syntax tree.
#[verifier::external_type_specification]
#[verifier::external_body]
pub struct ExSynType(syn::Type);

/// What `syn::parse_file` makes of a source text, as far as the search for
/// the migration list reads it: the top-level items in their order, or
/// nothing where the text is not valid source.
pub uninterp spec fn parsed(code: Seq<char>) -> Option<Seq<ItemShape>>;

/// Converts a `syn::Type` into a [`TypeExpr`], variant by variant: of a
/// `Type::Path` the identifiers of the path's segments in order, of a
/// `Type::Tuple` its elements in order, of a `Type::Paren` what it wraps;
/// every other variant is [`TypeExpr::Other`]. Nothing is claimed of the
/// result here: it is part of what [`parse_items`] returns.
#[verifier::external_body]
fn type_expr(ty: &syn::Type) -> TypeExpr {
    match ty {
        syn::Type::Path(p) => TypeExpr::Path(
            p.path.segments.iter().map(|segment| segment.ident.to_string()).collect(),
        ),
        syn::Type::Tuple(t) => TypeExpr::Tuple(t.elems.iter().map(type_expr).collect()),
        syn::Type::Paren(p) => TypeExpr::Paren(Box::new(type_expr(&p.elem))),
        _ => TypeExpr::Other,
    }
}

/// Parses a source text with `syn::parse_file` and hands out its top-level
/// items in their order: a `syn::Item::Type` as a type alias with its
/// identifier and its type, any other item as [`TopLevelItem::Other`]. The
/// parser's error is handed on as it is. The parse depends on the text
/// alone, which is all that the contract says: the same text gives the same
/// items, or fails, every time.
#[verifier::external_body]
pub(crate) fn parse_items(code: &str) -> (r: Result<Vec<TopLevelItem>, syn::Error>)
    ensures
        match r {
            Ok(items) => parsed(code@) == Some(items.deep_view()),
            Err(_) => parsed(code@) is None,
        },
{
    let file = syn::parse_file(code)?;
    Ok(
        file.items.iter().map(
            |item|
                match item {
                    syn::Item::Type(alias) => TopLevelItem::TypeAlias {
                        name: alias.ident.to_string(),
                        ty: type_expr(&alias.ty),
                    },
                    _ => TopLevelItem::Other,
                },
        ).collect(),
    )
}

} // verus!
