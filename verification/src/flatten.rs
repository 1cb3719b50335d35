use crate::error::SubmigError;
use crate::migration::{Entry, Migration};
use crate::shape::{Shape, TypeExpr};
use vstd::prelude::*;

verus! {

/// What becomes of a leaf that is no migration reference.
#[derive(Debug, Clone, Copy, PartialEq, Eq, Structural)]
pub enum Policy {
    /// The leaf is recorded as an unrecognized entry and the walk goes on.
    Lenient,
    /// The walk fails with [`SubmigError::NonStandard`].
    Strict,
}

impl Default for Policy {
    /// The lenient policy.
    fn default() -> (policy: Policy)
        ensures
            policy == Policy::Lenient,
    {
        Policy::Lenient
    }
}

/// The outcome of flattening: the entries in source order, or the error.
pub type Flattened = Result<Seq<Entry>, SubmigError>;

/// The outcome for a leaf that is no migration reference.
pub open spec fn non_standard(policy: Policy) -> Flattened {
    match policy {
        Policy::Lenient => Ok(seq![Entry::Unrecognized]),
        Policy::Strict => Err(SubmigError::NonStandard),
    }
}

/// The outcome for a type path: the name of its second segment, where it has
/// one.
pub open spec fn reference(segments: Seq<Seq<char>>, policy: Policy) -> Flattened {
    if segments.len() >= 2 {
        Ok(seq![Entry::Named(segments[1])])
    } else {
        non_standard(policy)
    }
}

/// The outcomes of the parts put together: the entries of all parts in
/// order, or the error of the first part that has one.
pub open spec fn join(parts: Seq<Flattened>) -> Flattened
    decreases parts.len(),
{
    if parts.len() == 0 {
        Ok(Seq::empty())
    } else {
        match join(parts.drop_last()) {
            Err(e) => Err(e),
            Ok(init) => match parts.last() {
                Err(e) => Err(e),
                Ok(last) => Ok(init + last),
            },
        }
    }
}

/// The migration list that a type expression of the given shape declares:
/// its leaves from left to right, depth first.
pub open spec fn flatten(shape: Shape, policy: Policy) -> Flattened
    decreases shape,
{
    match shape {
        Shape::Reference(segments) => reference(segments, policy),
        Shape::Tuple(elems) => join(
            Seq::new(
                elems.len(),
                |i: int|
                    if 0 <= i < elems.len() {
                        flatten(elems[i], policy)
                    } else {
                        non_standard(policy)
                    },
            ),
        ),
        Shape::Paren(inner) => flatten(*inner, policy),
        Shape::Other => non_standard(policy),
    }
}

/// The outcomes of the elements of a tuple, one by one.
pub open spec fn flatten_each(elems: Seq<Shape>, policy: Policy) -> Seq<Flattened> {
    Seq::new(elems.len(), |i: int| flatten(elems[i], policy))
}

/// The mathematical value of what [`get_migration`] returns.
pub open spec fn outcome(r: Result<Vec<Migration>, SubmigError>) -> Flattened {
    match r {
        Ok(list) => Ok(list.deep_view()),
        Err(e) => Err(e),
    }
}

/// A tuple flattens to the outcomes of its elements put together.
pub proof fn lemma_flatten_tuple(elems: Seq<Shape>, policy: Policy)
    ensures
        flatten(Shape::Tuple(elems), policy) == join(flatten_each(elems, policy)),
{
    let each = flatten_each(elems, policy);
    assert forall|parts: Seq<Flattened>|
        parts.len() == each.len() && (forall|i: int|
            0 <= i < each.len() ==> parts[i] == each[i]) implies #[trigger] join(parts) == join(
        each,
    ) by {
        assert(parts =~= each);
    }
}

/// An error among the first parts is the error of the whole.
proof fn lemma_join_prefix_error(parts: Seq<Flattened>, k: int)
    requires
        0 <= k <= parts.len(),
        join(parts.take(k)) is Err,
    ensures
        join(parts) == join(parts.take(k)),
    decreases parts.len() - k,
{
    if k < parts.len() {
        assert(parts.take(k + 1).drop_last() =~= parts.take(k));
        lemma_join_prefix_error(parts, k + 1);
    } else {
        assert(parts.take(k) =~= parts);
    }
}

/// The outcome for a leaf that is no migration reference.
fn unreadable(policy: Policy) -> (r: Result<Vec<Migration>, SubmigError>)
    ensures
        outcome(r) == non_standard(policy),
{
    match policy {
        Policy::Lenient => {
            let mut list: Vec<Migration> = Vec::new();
            list.push(Migration::NotOk());
            assert(list.deep_view() =~= seq![Entry::Unrecognized]);
            Ok(list)
        },
        Policy::Strict => Err(SubmigError::NonStandard),
    }
}

/// Flattens a type expression into the migrations it lists, from left to
/// right: a path gives the name of its second segment, a tuple the entries of
/// its elements in order, a parenthesized expression those of what it wraps.
/// A path of fewer than two segments, and any other expression, is handled as
/// the policy says.
pub fn get_migration(t: &TypeExpr, policy: Policy) -> (r: Result<Vec<Migration>, SubmigError>)
    ensures
        outcome(r) == flatten(t@, policy),
    decreases t,
{
    match t {
        TypeExpr::Path(segments) => {
            if segments.len() >= 2 {
                let mut list: Vec<Migration> = Vec::new();
                list.push(Migration::Named(segments[1].clone()));
                assert(list.deep_view() =~= seq![Entry::Named(segments.deep_view()[1])]);
                Ok(list)
            } else {
                unreadable(policy)
            }
        },
        TypeExpr::Tuple(elems) => {
            let ghost shapes = t@->Tuple_0;
            let ghost parts = flatten_each(shapes, policy);
            proof {
                lemma_flatten_tuple(shapes, policy);
            }
            let mut list: Vec<Migration> = Vec::new();
            let mut i: usize = 0;
            assert(parts.take(0) =~= Seq::empty());
            assert(list.deep_view() =~= Seq::empty());
            while i < elems.len()
                invariant
                    i <= elems.len(),
                    *t == TypeExpr::Tuple(*elems),
                    shapes == t@->Tuple_0,
                    parts == flatten_each(shapes, policy),
                    flatten(t@, policy) == join(parts),
                    join(parts.take(i as int)) == Ok::<Seq<Entry>, SubmigError>(list.deep_view()),
                decreases elems.len() - i,
            {
                assert(parts.take(i + 1).drop_last() =~= parts.take(i as int));
                assert(parts.take(i + 1).last() == flatten(elems@[i as int]@, policy));
                match get_migration(&elems[i], policy) {
                    Err(e) => {
                        proof {
                            lemma_join_prefix_error(parts, i + 1);
                        }
                        return Err(e);
                    },
                    Ok(mut part) => {
                        let ghost before = list.deep_view();
                        let ghost added = part.deep_view();
                        list.append(&mut part);
                        assert(list.deep_view() =~= before + added);
                    },
                }
                i += 1;
            }
            assert(parts.take(i as int) =~= parts);
            Ok(list)
        },
        TypeExpr::Paren(inner) => get_migration(inner, policy),
        TypeExpr::Other => unreadable(policy),
    }
}

/// The entry that a leaf stands for: the name of its second segment where it
/// is a path that has one, the unrecognized entry where it is not.
pub open spec fn leaf_entry(shape: Shape) -> Entry {
    match shape {
        Shape::Reference(segments) if segments.len() >= 2 => Entry::Named(segments[1]),
        _ => Entry::Unrecognized,
    }
}

/// Whether a shape is a type path with a second segment to take a name from.
pub open spec fn readable(shape: Shape) -> bool {
    shape matches Shape::Reference(segments) && segments.len() >= 2
}

/// The parts of a tuple of type paths put together are one entry for each
/// path, in the order of the paths.
proof fn lemma_join_references(elems: Seq<Shape>, policy: Policy)
    requires
        forall|i: int| 0 <= i < elems.len() ==> elems[i] is Reference,
        policy == Policy::Strict ==> forall|i: int| 0 <= i < elems.len() ==> readable(elems[i]),
    ensures
        join(flatten_each(elems, policy)) == Ok::<Seq<Entry>, SubmigError>(
            Seq::new(elems.len(), |i: int| leaf_entry(elems[i])),
        ),
    decreases elems.len(),
{
    let entries = Seq::new(elems.len(), |i: int| leaf_entry(elems[i]));
    if elems.len() == 0 {
        assert(entries =~= Seq::empty());
    } else {
        let init = elems.drop_last();
        lemma_join_references(init, policy);
        assert(flatten_each(elems, policy).drop_last() =~= flatten_each(init, policy));
        assert(readable(elems.last()) || policy == Policy::Lenient);
        assert(entries =~= Seq::new(init.len(), |i: int| leaf_entry(init[i])) + seq![
            leaf_entry(elems.last()),
        ]);
    }
}

/// A tuple of `N` type paths flattens to exactly `N` entries, the `i`-th of
/// them read from the `i`-th path. Under the strict policy this is stated of
/// paths that all have a second segment; under the lenient one of all paths.
pub proof fn lemma_tuple_of_references(elems: Seq<Shape>, policy: Policy)
    requires
        forall|i: int| 0 <= i < elems.len() ==> elems[i] is Reference,
        policy == Policy::Strict ==> forall|i: int| 0 <= i < elems.len() ==> readable(elems[i]),
    ensures
        flatten(Shape::Tuple(elems), policy) == Ok::<Seq<Entry>, SubmigError>(
            Seq::new(elems.len(), |i: int| leaf_entry(elems[i])),
        ),
{
    lemma_flatten_tuple(elems, policy);
    lemma_join_references(elems, policy);
}

/// Redundant parentheses change nothing: an expression in parentheses
/// flattens to what the expression itself flattens to.
pub proof fn lemma_paren_is_transparent(inner: Shape, policy: Policy)
    ensures
        flatten(Shape::Paren(Box::new(inner)), policy) == flatten(inner, policy),
{
}

/// A type path without a second segment never yields a name: under the
/// strict policy it is the error [`SubmigError::NonStandard`], under the
/// lenient one the single unrecognized entry.
pub proof fn lemma_short_path_is_non_standard(segments: Seq<Seq<char>>, policy: Policy)
    requires
        segments.len() < 2,
    ensures
        flatten(Shape::Reference(segments), Policy::Strict) == Err::<Seq<Entry>, SubmigError>(
            SubmigError::NonStandard,
        ),
        flatten(Shape::Reference(segments), Policy::Lenient) == Ok::<Seq<Entry>, SubmigError>(
            seq![Entry::Unrecognized],
        ),
        flatten(Shape::Reference(segments), policy) == non_standard(policy),
{
}

/// Parts that are all entries put together are entries.
proof fn lemma_join_of_entries(parts: Seq<Flattened>)
    requires
        forall|i: int| 0 <= i < parts.len() ==> (#[trigger] parts[i]) is Ok,
    ensures
        join(parts) is Ok,
    decreases parts.len(),
{
    if parts.len() > 0 {
        lemma_join_of_entries(parts.drop_last());
    }
}

/// Under the lenient policy flattening never fails: a leaf that cannot be
/// read is recorded and the walk goes on.
pub proof fn lemma_lenient_never_fails(shape: Shape)
    ensures
        flatten(shape, Policy::Lenient) is Ok,
    decreases shape,
{
    match shape {
        Shape::Tuple(elems) => {
            let parts = flatten_each(elems, Policy::Lenient);
            assert forall|i: int| 0 <= i < parts.len() implies (#[trigger] parts[i]) is Ok by {
                lemma_lenient_never_fails(elems[i]);
            }
            lemma_join_of_entries(parts);
            lemma_flatten_tuple(elems, Policy::Lenient);
        },
        Shape::Paren(inner) => {
            lemma_lenient_never_fails(*inner);
        },
        _ => {},
    }
}

/// Parts that agree put together agree: where the strict parts succeed as a
/// whole, the lenient parts come to the same entries.
proof fn lemma_join_agrees(strict: Seq<Flattened>, lenient: Seq<Flattened>)
    requires
        strict.len() == lenient.len(),
        forall|i: int|
            0 <= i < strict.len() ==> ((#[trigger] strict[i]) is Ok ==> lenient[i] == strict[i]),
        join(strict) is Ok,
    ensures
        join(lenient) == join(strict),
    decreases strict.len(),
{
    if strict.len() > 0 {
        lemma_join_agrees(strict.drop_last(), lenient.drop_last());
    }
}

/// Where the strict policy succeeds, the lenient one gives the same
/// entries: the policies differ only on what the strict one refuses.
pub proof fn lemma_policies_agree(shape: Shape)
    requires
        flatten(shape, Policy::Strict) is Ok,
    ensures
        flatten(shape, Policy::Lenient) == flatten(shape, Policy::Strict),
    decreases shape,
{
    match shape {
        Shape::Tuple(elems) => {
            let strict = flatten_each(elems, Policy::Strict);
            let lenient = flatten_each(elems, Policy::Lenient);
            lemma_flatten_tuple(elems, Policy::Strict);
            lemma_flatten_tuple(elems, Policy::Lenient);
            assert forall|i: int| 0 <= i < strict.len() implies ((#[trigger] strict[i]) is Ok
                ==> lenient[i] == strict[i]) by {
                if strict[i] is Ok {
                    lemma_policies_agree(elems[i]);
                }
            }
            lemma_join_agrees(strict, lenient);
        },
        Shape::Paren(inner) => {
            lemma_policies_agree(*inner);
        },
        _ => {},
    }
}

/// The only error of flattening is [`SubmigError::NonStandard`].
pub proof fn lemma_only_error_is_non_standard(shape: Shape, policy: Policy)
    ensures
        flatten(shape, policy) matches Err(e) ==> e == SubmigError::NonStandard,
    decreases shape,
{
    match shape {
        Shape::Tuple(elems) => {
            let parts = flatten_each(elems, policy);
            assert forall|i: int| 0 <= i < parts.len() implies ((
            #[trigger] parts[i]) matches Err(e) ==> e == SubmigError::NonStandard) by {
                lemma_only_error_is_non_standard(elems[i], policy);
            }
            lemma_join_error(parts);
            lemma_flatten_tuple(elems, policy);
        },
        Shape::Paren(inner) => {
            lemma_only_error_is_non_standard(*inner, policy);
        },
        _ => {},
    }
}

/// The error of parts put together is the error of one of the parts.
proof fn lemma_join_error(parts: Seq<Flattened>)
    requires
        forall|i: int|
            0 <= i < parts.len() ==> ((#[trigger] parts[i]) matches Err(e) ==> e
                == SubmigError::NonStandard),
    ensures
        join(parts) matches Err(e) ==> e == SubmigError::NonStandard,
    decreases parts.len(),
{
    if parts.len() > 0 {
        lemma_join_error(parts.drop_last());
    }
}

} // verus!
