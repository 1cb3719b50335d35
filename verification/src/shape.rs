use vstd::prelude::*;

verus! {

/// The mathematical value of a [`TypeExpr`]: the shape of a type expression,
/// as far as a migration list is read from it.
pub enum Shape {
    /// A type path, by the names of its segments in order.
    Reference(Seq<Seq<char>>),
    /// A tuple of type expressions, in declared order.
    Tuple(Seq<Shape>),
    /// A type expression in redundant parentheses.
    Paren(Box<Shape>),
    /// Any other type expression.
    Other,
}

/// A type expression as the parser hands it over.
#[derive(Debug, PartialEq, Eq)]
pub enum TypeExpr {
    /// A type path such as `pallet::V0042`, by the names of its segments.
    Path(Vec<String>),
    /// A tuple `(A, B, C)` of type expressions.
    Tuple(Vec<TypeExpr>),
    /// A parenthesized type expression `(A)`.
    Paren(Box<TypeExpr>),
    /// An array, a reference, a function type and the like.
    Other,
}

impl TypeExpr {
    /// The shape of this type expression.
    pub open spec fn shape(self) -> Shape
        decreases self,
    {
        match self {
            TypeExpr::Path(segments) => Shape::Reference(segments.deep_view()),
            TypeExpr::Tuple(elems) => Shape::Tuple(
                Seq::new(
                    elems@.len(),
                    |i: int|
                        if 0 <= i < elems@.len() {
                            elems@[i].shape()
                        } else {
                            Shape::Other
                        },
                ),
            ),
            TypeExpr::Paren(inner) => Shape::Paren(Box::new((*inner).shape())),
            TypeExpr::Other => Shape::Other,
        }
    }
}

impl View for TypeExpr {
    type V = Shape;

    open spec fn view(&self) -> Shape {
        self.shape()
    }
}

impl DeepView for TypeExpr {
    type V = Shape;

    open spec fn deep_view(&self) -> Shape {
        self@
    }
}

/// The mathematical value of a [`TopLevelItem`].
pub enum ItemShape {
    /// A type alias, by its name and the shape of the type it stands for.
    TypeAlias { name: Seq<char>, ty: Shape },
    /// Any other item.
    Other,
}

/// A top-level declaration of a source file, as far as the search for the
/// migration list reads it.
#[derive(Debug, PartialEq, Eq)]
pub enum TopLevelItem {
    /// A type alias `type name = ty;`.
    TypeAlias { name: String, ty: TypeExpr },
    /// Any other item.
    Other,
}

impl View for TopLevelItem {
    type V = ItemShape;

    open spec fn view(&self) -> ItemShape {
        match self {
            TopLevelItem::TypeAlias { name, ty } => ItemShape::TypeAlias { name: name@, ty: ty@ },
            TopLevelItem::Other => ItemShape::Other,
        }
    }
}

impl DeepView for TopLevelItem {
    type V = ItemShape;

    open spec fn deep_view(&self) -> ItemShape {
        self@
    }
}

} // verus!
