//! The declaration of a record type, as far as the synthesis reads it, and the
//! mathematical view of each of its parts.
//!
//! Identifiers, types and bounds are held as token text. Two types are the
//! same type exactly if their token text is the same.

use vstd::prelude::*;

verus! {

/// One member of a record.
#[derive(Clone, Debug, PartialEq, Eq)]
pub struct Field {
    /// The declared name; absent for a positional field, whose position is its
    /// identity.
    pub name: Option<String>,
    /// The declared type.
    pub ty: String,
}

/// The view of a [`Field`].
pub struct FieldView {
    pub name: Option<Seq<char>>,
    pub ty: Seq<char>,
}

impl View for Field {
    type V = FieldView;

    open spec fn view(&self) -> FieldView {
        FieldView {
            name: match self.name {
                Some(name) => Some(name@),
                None => None,
            },
            ty: self.ty@,
        }
    }
}

impl DeepView for Field {
    type V = FieldView;

    open spec fn deep_view(&self) -> FieldView {
        self@
    }
}

/// A subject with the bounds put on it: a lifetime parameter, a type
/// parameter, or a predicate of a `where` clause.
#[derive(Debug, PartialEq, Eq)]
pub struct Constraint {
    /// What is bounded: a lifetime, a parameter's name, a type.
    pub subject: String,
    /// The bounds, each a trait or a lifetime; possibly none.
    pub bounds: Vec<String>,
}

/// The view of a [`Constraint`].
pub struct ConstraintView {
    pub subject: Seq<char>,
    pub bounds: Seq<Seq<char>>,
}

impl View for Constraint {
    type V = ConstraintView;

    open spec fn view(&self) -> ConstraintView {
        ConstraintView { subject: self.subject@, bounds: self.bounds.deep_view() }
    }
}

impl DeepView for Constraint {
    type V = ConstraintView;

    open spec fn deep_view(&self) -> ConstraintView {
        self@
    }
}

impl Clone for Constraint {
    fn clone(&self) -> (copy: Constraint)
        ensures
            copy@ == self@,
    {
        Constraint { subject: self.subject.clone(), bounds: self.bounds.clone() }
    }
}

/// The generic parameters of a declaration and the predicates of its `where`
/// clause.
#[derive(Debug, PartialEq, Eq)]
pub struct Generics {
    pub lifetimes: Vec<Constraint>,
    pub type_params: Vec<Constraint>,
    pub predicates: Vec<Constraint>,
}

/// The view of a [`Generics`].
pub struct GenericsView {
    pub lifetimes: Seq<ConstraintView>,
    pub type_params: Seq<ConstraintView>,
    pub predicates: Seq<ConstraintView>,
}

impl View for Generics {
    type V = GenericsView;

    open spec fn view(&self) -> GenericsView {
        GenericsView {
            lifetimes: self.lifetimes.deep_view(),
            type_params: self.type_params.deep_view(),
            predicates: self.predicates.deep_view(),
        }
    }
}

impl Clone for Generics {
    fn clone(&self) -> (copy: Generics)
        ensures
            copy@ == self@,
    {
        Generics {
            lifetimes: self.lifetimes.clone(),
            type_params: self.type_params.clone(),
            predicates: self.predicates.clone(),
        }
    }
}

/// The fields of a record, addressed by position or by name.
#[derive(Clone, Debug, PartialEq, Eq)]
pub enum FieldLayout {
    Positional(Vec<Field>),
    Named(Vec<Field>),
}

/// The view of a [`FieldLayout`].
pub enum FieldLayoutView {
    Positional(Seq<FieldView>),
    Named(Seq<FieldView>),
}

impl View for FieldLayout {
    type V = FieldLayoutView;

    open spec fn view(&self) -> FieldLayoutView {
        match self {
            FieldLayout::Positional(fields) => FieldLayoutView::Positional(fields.deep_view()),
            FieldLayout::Named(fields) => FieldLayoutView::Named(fields.deep_view()),
        }
    }
}

impl FieldLayoutView {
    /// The fields in declaration order.
    pub open spec fn fields(self) -> Seq<FieldView> {
        match self {
            FieldLayoutView::Positional(fields) => fields,
            FieldLayoutView::Named(fields) => fields,
        }
    }
}

/// What kind of type a declaration declares.
#[derive(Clone, Debug, PartialEq, Eq)]
pub enum Shape {
    /// A record with a field layout.
    Record(FieldLayout),
    /// A record declared without any field list.
    Unit,
    /// A sum type.
    Sum,
}

/// The view of a [`Shape`].
pub enum ShapeView {
    Record(FieldLayoutView),
    Unit,
    Sum,
}

impl View for Shape {
    type V = ShapeView;

    open spec fn view(&self) -> ShapeView {
        match self {
            Shape::Record(layout) => ShapeView::Record(layout@),
            Shape::Unit => ShapeView::Unit,
            Shape::Sum => ShapeView::Sum,
        }
    }
}

/// The declaration that an implementation is synthesized for.
#[derive(Clone, Debug, PartialEq, Eq)]
pub struct TypeDeclaration {
    pub name: String,
    pub generics: Generics,
    pub shape: Shape,
}

/// The view of a [`TypeDeclaration`].
pub struct TypeDeclarationView {
    pub name: Seq<char>,
    pub generics: GenericsView,
    pub shape: ShapeView,
}

impl View for TypeDeclaration {
    type V = TypeDeclarationView;

    open spec fn view(&self) -> TypeDeclarationView {
        TypeDeclarationView { name: self.name@, generics: self.generics@, shape: self.shape@ }
    }
}

/// Every field has a declared name.
pub open spec fn all_named(fields: Seq<FieldView>) -> bool {
    forall|i: int| 0 <= i < fields.len() ==> (#[trigger] fields[i]).name is Some
}

/// The declared types of the fields, in declaration order.
pub open spec fn field_types(fields: Seq<FieldView>) -> Seq<Seq<char>> {
    Seq::new(fields.len(), |i: int| fields[i].ty)
}

/// The layout of a declaration that an implementation can be synthesized
/// for: a record with at least one field, whose fields all carry a name if the
/// layout is a named one.
pub open spec fn supported_layout(shape: ShapeView) -> Option<FieldLayoutView> {
    match shape {
        ShapeView::Record(layout) => {
            if layout.fields().len() > 0 && (layout is Named ==> all_named(layout.fields())) {
                Some(layout)
            } else {
                None
            }
        },
        ShapeView::Unit => None,
        ShapeView::Sum => None,
    }
}

} // verus!
