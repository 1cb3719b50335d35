use crate::error::SubmigError;
use crate::flatten::{flatten, get_migration, outcome, Policy};
use crate::migration::{Entry, Migration};
use crate::naming::same_text;
use crate::shape::{ItemShape, Shape, TopLevelItem, TypeExpr};
use vstd::prelude::*;

verus! {

/// The name of the type alias that declares the migrations of a file.
pub const ALIAS_NAME: &'static str = "Migrations";

/// Whether an item is a type alias of the name looked for.
pub open spec fn declares(item: ItemShape) -> bool {
    item matches ItemShape::TypeAlias { name, .. } && name == ALIAS_NAME@
}

/// The items that declare a migration list, in their order.
pub open spec fn declarations(items: Seq<ItemShape>) -> Seq<ItemShape> {
    items.filter(|item: ItemShape| declares(item))
}

/// What the search among the items of a file gives: nothing where no item
/// declares a migration list, the declared type where exactly one does, and
/// an error where more than one does.
pub open spec fn located(items: Seq<ItemShape>) -> Result<Option<Shape>, SubmigError> {
    let hits = declarations(items);
    if hits.len() == 0 {
        Ok(None)
    } else if hits.len() == 1 {
        Ok(Some(hits[0]->ty))
    } else {
        Err(SubmigError::Duplicate)
    }
}

/// The mathematical value of what [`locate`] returns.
pub open spec fn located_view(r: Result<Option<&TypeExpr>, SubmigError>) -> Result<
    Option<Shape>,
    SubmigError,
> {
    match r {
        Ok(Some(ty)) => Ok(Some(ty@)),
        Ok(None) => Ok(None),
        Err(e) => Err(e),
    }
}

/// The declarations among the first items are the first of all the
/// declarations.
proof fn lemma_declarations_of_prefix(items: Seq<ItemShape>, k: int)
    requires
        0 <= k <= items.len(),
    ensures
        declarations(items) == declarations(items.take(k)) + declarations(items.skip(k)),
{
    assert(items =~= items.take(k) + items.skip(k));
    Seq::filter_distributes_over_add(
        items.take(k),
        items.skip(k),
        |item: ItemShape| declares(item),
    );
}

/// One more item adds itself to the declarations if it is one, and nothing
/// if it is not.
proof fn lemma_declarations_step(items: Seq<ItemShape>, k: int)
    requires
        0 <= k < items.len(),
    ensures
        declarations(items.take(k + 1)) == if declares(items[k]) {
            declarations(items.take(k)).push(items[k])
        } else {
            declarations(items.take(k))
        },
{
    reveal(Seq::filter);
    assert(items.take(k + 1).drop_last() =~= items.take(k));
}

/// Looks among the top-level items of a file for the type alias named
/// `Migrations` and returns the type it stands for. A file without such an
/// alias has nothing to return; a file with more than one is refused, and
/// none of them is picked.
pub fn locate<'a>(items: &'a Vec<TopLevelItem>) -> (r: Result<Option<&'a TypeExpr>, SubmigError>)
    ensures
        located_view(r) == located(items.deep_view()),
{
    let ghost all = items.deep_view();
    let mut found: Option<&'a TypeExpr> = None;
    let mut i: usize = 0;
    proof {
        reveal(Seq::filter);
        assert(all.take(0) =~= Seq::empty());
    }
    while i < items.len()
        invariant
            i <= items.len(),
            all == items.deep_view(),
            located_view(Ok(found)) == located(all.take(i as int)),
        decreases items.len() - i,
    {
        proof {
            lemma_declarations_step(all, i as int);
        }
        match &items[i] {
            TopLevelItem::TypeAlias { name, ty } => {
                if same_text(name.as_str(), ALIAS_NAME) {
                    if found.is_some() {
                        proof {
                            lemma_declarations_of_prefix(all, i + 1);
                        }
                        return Err(SubmigError::Duplicate);
                    }
                    found = Some(ty);
                }
            },
            TopLevelItem::Other => {},
        }
        i += 1;
    }
    assert(all.take(i as int) =~= all);
    Ok(found)
}

/// The migrations that one item declares: those of the type that a type
/// alias stands for. An item that is no type alias declares none and is
/// refused.
pub fn get_migrations(item: &TopLevelItem, policy: Policy) -> (r: Result<
    Vec<Migration>,
    SubmigError,
>)
    ensures
        outcome(r) == match item@ {
            ItemShape::TypeAlias { ty, .. } => flatten(ty, policy),
            ItemShape::Other => Err::<Seq<Entry>, SubmigError>(SubmigError::NonStandard),
        },
{
    match item {
        TopLevelItem::TypeAlias { ty, .. } => get_migration(ty, policy),
        TopLevelItem::Other => Err(SubmigError::NonStandard),
    }
}

} // verus!
