//! Assembly: from a declaration and the name of an operator to the
//! implementation of that operator for the declared record.

use crate::fields::{named_constructor, positional_constructor, struct_content, tuple_content};
use crate::generics::{augmented, get_mul_generics, param_names, scalar_name};
use crate::model::{
    all_named, supported_layout, Field, FieldLayout, FieldLayoutView, Generics, GenericsView,
    Shape, ShapeView, TypeDeclaration, TypeDeclarationView,
};
use crate::printing::{
    impl_generics, impl_generics_tokens, ty_generics, ty_generics_tokens, where_clause,
    where_clause_tokens,
};
use crate::text::{emit, emit_fragment, glued};
use crate::tokens::token_text;
use quote::Tokens;
use vstd::prelude::*;
use vstd::string::StringExecFns;

verus! {

/// The declaration is not a record with at least one field, so no
/// implementation can be synthesized for it.
#[derive(Clone, Debug, PartialEq, Eq)]
pub struct UnsupportedShape {
    /// The name of the operator that was asked for.
    pub operator: String,
}

impl UnsupportedShape {
    /// The text of [`UnsupportedShape::message`] for the operator `operator`.
    pub open spec fn message_text(operator: Seq<char>) -> Seq<char> {
        "Only structs with at least one field can use derive("@ + operator + ")"@
    }

    /// A sentence for the user: which operator was asked for, and that only
    /// records with at least one field can have it.
    pub fn message(&self) -> (text: String)
        ensures
            text@ == Self::message_text(self.operator@),
    {
        let text = String::from_str("Only structs with at least one field can use derive(");
        let text = text.concat(self.operator.as_str());
        text.concat(")")
    }
}

/// The tokens of the path of the operator's trait, `::std::ops::<trait_name>`.
pub open spec fn trait_path_tokens(trait_name: Seq<char>) -> Seq<Seq<char>> {
    seq!["::"@, "std"@, "::"@, "ops"@, "::"@, trait_name]
}

/// The tokens of `impl<..> <path><<scalar>> for <target> where ..`.
pub open spec fn header_tokens(
    generics: GenericsView,
    path: Seq<Seq<char>>,
    scalar: Seq<char>,
    target: Seq<Seq<char>>,
) -> Seq<Seq<char>> {
    seq!["impl"@] + impl_generics_tokens(generics) + path + seq![
        "<"@,
        scalar,
        ">"@,
        "for"@,
    ] + target + where_clause_tokens(generics.predicates)
}

/// The tokens of the declared type applied to its own generic arguments.
pub open spec fn target_tokens(declaration: TypeDeclarationView) -> Seq<Seq<char>> {
    seq![declaration.name] + ty_generics_tokens(declaration.generics)
}

/// The tokens of the expression that rebuilds the record from the method
/// applied to each field.
pub open spec fn block_tokens(
    name: Seq<char>,
    layout: FieldLayoutView,
    method: Seq<char>,
) -> Seq<Seq<char>> {
    match layout {
        FieldLayoutView::Positional(fields) => positional_constructor(name, fields.len(), method),
        FieldLayoutView::Named(fields) => named_constructor(name, fields, method),
    }
}

/// The tokens of `type Output = <target>;`.
pub open spec fn output_tokens(target: Seq<Seq<char>>) -> Seq<Seq<char>> {
    seq!["type"@, "Output"@, "="@] + target + seq![";"@]
}

/// The tokens of `fn <method>(self, rhs: <scalar>) -> <target> { <block> }`.
pub open spec fn method_tokens(
    method: Seq<char>,
    scalar: Seq<char>,
    target: Seq<Seq<char>>,
    block: Seq<Seq<char>>,
) -> Seq<Seq<char>> {
    seq!["fn"@, method, "("@, "self"@, ","@, "rhs"@, ":"@, scalar, ")"@, "->"@] + target + seq![
        "{"@,
    ] + block + seq!["}"@]
}

/// The tokens of the implementation of the operator `trait_name`, with the
/// method `method`, for a declaration whose fields are laid out as `layout`.
///
/// The implementation is generic over the scalar, carries the augmented
/// generics, implements the operator's trait with the scalar as its
/// parameter for the declared type, declares the declared type as the output,
/// and has one method, which takes the scalar as `rhs` and rebuilds the record
/// field by field.
pub open spec fn implementation_tokens(
    declaration: TypeDeclarationView,
    layout: FieldLayoutView,
    trait_name: Seq<char>,
    method: Seq<char>,
) -> Seq<Seq<char>> {
    let scalar = scalar_name(param_names(declaration.generics.type_params));
    let generics = augmented(
        declaration.generics,
        layout.fields(),
        glued(trait_path_tokens(trait_name)),
    );
    let target = target_tokens(declaration);
    header_tokens(generics, trait_path_tokens(trait_name), scalar, target) + seq!["{"@]
        + output_tokens(target)
        + method_tokens(method, scalar, target, block_tokens(declaration.name, layout, method))
        + seq!["}"@]
}

/// The text of the implementation, if the declaration is a record with at
/// least one field.
pub open spec fn expansion(
    declaration: TypeDeclarationView,
    trait_name: Seq<char>,
    method: Seq<char>,
) -> Option<Seq<char>> {
    match supported_layout(declaration.shape) {
        Some(layout) => Some(glued(implementation_tokens(declaration, layout, trait_name, method))),
        None => None,
    }
}

/// The path of the operator's trait, `::std::ops::<trait_name>`.
pub fn trait_path(trait_name: &str) -> (path: Tokens)
    ensures
        token_text(path) == glued(trait_path_tokens(trait_name@)),
{
    let mut path = Tokens::new();
    let done = Ghost(Seq::empty());
    let done = emit(&mut path, "::", done);
    let done = emit(&mut path, "std", done);
    let done = emit(&mut path, "::", done);
    let done = emit(&mut path, "ops", done);
    let done = emit(&mut path, "::", done);
    let done = emit(&mut path, trait_name, done);
    assert(done@ =~= trait_path_tokens(trait_name@));
    path
}

/// `impl<..> <path><<scalar>> for <target> where ..`.
fn header(
    generics: &Generics,
    path: &Tokens,
    scalar: &str,
    target: &Tokens,
    Ghost(path_parts): Ghost<Seq<Seq<char>>>,
    Ghost(target_parts): Ghost<Seq<Seq<char>>>,
) -> (fragment: Tokens)
    requires
        token_text(*path) == glued(path_parts),
        token_text(*target) == glued(target_parts),
    ensures
        token_text(fragment) == glued(header_tokens(generics@, path_parts, scalar@, target_parts)),
{
    let parameters = impl_generics(generics);
    let predicates = where_clause(generics);
    let mut fragment = Tokens::new();
    let done = emit(&mut fragment, "impl", Ghost(Seq::empty()));
    let done = emit_fragment(
        &mut fragment,
        &parameters,
        done,
        Ghost(impl_generics_tokens(generics@)),
    );
    let done = emit_fragment(&mut fragment, path, done, Ghost(path_parts));
    let done = emit(&mut fragment, "<", done);
    let done = emit(&mut fragment, scalar, done);
    let done = emit(&mut fragment, ">", done);
    let done = emit(&mut fragment, "for", done);
    let done = emit_fragment(&mut fragment, target, done, Ghost(target_parts));
    let done = emit_fragment(
        &mut fragment,
        &predicates,
        done,
        Ghost(where_clause_tokens(generics@.predicates)),
    );
    assert(done@ =~= header_tokens(generics@, path_parts, scalar@, target_parts));
    fragment
}

/// Whether every field has a declared name.
fn every_field_named(fields: &Vec<Field>) -> (named: bool)
    ensures
        named == all_named(fields.deep_view()),
{
    let mut i: usize = 0;
    while i < fields.len()
        invariant
            i <= fields.len(),
            forall|k: int| 0 <= k < i ==> (#[trigger] fields.deep_view()[k]).name is Some,
        decreases fields.len() - i,
    {
        if fields[i].name.is_none() {
            assert(fields.deep_view()[i as int].name is None);
            return false;
        }
        i += 1;
    }
    true
}

/// The declared type applied to its own generic arguments.
fn target(input: &TypeDeclaration) -> (fragment: Tokens)
    ensures
        token_text(fragment) == glued(target_tokens(input@)),
{
    let arguments = ty_generics(&input.generics);
    let mut fragment = Tokens::new();
    let done = emit(&mut fragment, input.name.as_str(), Ghost(Seq::empty()));
    let done = emit_fragment(
        &mut fragment,
        &arguments,
        done,
        Ghost(ty_generics_tokens(input@.generics)),
    );
    fragment
}

/// `type Output = <target>;`.
fn output(target: &Tokens, Ghost(target_parts): Ghost<Seq<Seq<char>>>) -> (fragment: Tokens)
    requires
        token_text(*target) == glued(target_parts),
    ensures
        token_text(fragment) == glued(output_tokens(target_parts)),
{
    let mut fragment = Tokens::new();
    let done = emit(&mut fragment, "type", Ghost(Seq::empty()));
    let done = emit(&mut fragment, "Output", done);
    let done = emit(&mut fragment, "=", done);
    let done = emit_fragment(&mut fragment, target, done, Ghost(target_parts));
    let done = emit(&mut fragment, ";", done);
    assert(done@ =~= output_tokens(target_parts));
    fragment
}

/// `fn <method>(self, rhs: <scalar>) -> <target> { <block> }`.
fn method(
    method_name: &str,
    scalar: &str,
    target: &Tokens,
    block: &Tokens,
    Ghost(target_parts): Ghost<Seq<Seq<char>>>,
    Ghost(block_parts): Ghost<Seq<Seq<char>>>,
) -> (fragment: Tokens)
    requires
        token_text(*target) == glued(target_parts),
        token_text(*block) == glued(block_parts),
    ensures
        token_text(fragment) == glued(
            method_tokens(method_name@, scalar@, target_parts, block_parts),
        ),
{
    let mut fragment = Tokens::new();
    let done = emit(&mut fragment, "fn", Ghost(Seq::empty()));
    let done = emit(&mut fragment, method_name, done);
    let done = emit(&mut fragment, "(", done);
    let done = emit(&mut fragment, "self", done);
    let done = emit(&mut fragment, ",", done);
    let done = emit(&mut fragment, "rhs", done);
    let done = emit(&mut fragment, ":", done);
    let done = emit(&mut fragment, scalar, done);
    let done = emit(&mut fragment, ")", done);
    let done = emit(&mut fragment, "->", done);
    let done = emit_fragment(&mut fragment, target, done, Ghost(target_parts));
    let done = emit(&mut fragment, "{", done);
    let done = emit_fragment(&mut fragment, block, done, Ghost(block_parts));
    let done = emit(&mut fragment, "}", done);
    assert(done@ =~= method_tokens(method_name@, scalar@, target_parts, block_parts));
    fragment
}

/// The implementation of the operator `trait_name`, with the method
/// `method_name`, for the record that `input` declares; no implementation if
/// `input` does not declare a record with at least one field.
pub fn expand_with_method(
    input: &TypeDeclaration,
    trait_name: &str,
    method_name: &str,
) -> (result: Result<Tokens, UnsupportedShape>)
    ensures
        result is Ok <==> supported_layout(input@.shape) is Some,
        result matches Ok(tokens) ==> expansion(input@, trait_name@, method_name@) == Some(
            token_text(tokens),
        ),
        result matches Err(error) ==> error.operator@ == trait_name@,
{
    let (block, fields) = match &input.shape {
        Shape::Record(FieldLayout::Positional(fields)) if fields.len() > 0 => {
            (tuple_content(input.name.as_str(), fields, method_name), fields)
        },
        Shape::Record(FieldLayout::Named(fields)) if fields.len() > 0 && every_field_named(
            fields,
        ) => { (struct_content(input.name.as_str(), fields, method_name), fields) },
        _ => {
            return Err(UnsupportedShape { operator: trait_name.to_owned() });
        },
    };
    let ghost layout = supported_layout(input@.shape).unwrap();
    let ghost block_parts = block_tokens(input@.name, layout, method_name@);
    let ghost target_parts = target_tokens(input@);
    let ghost path_parts = trait_path_tokens(trait_name@);

    let path = trait_path(trait_name);
    let (new_generics, scalar_ident) = get_mul_generics(input, fields, &path);
    let target = target(input);
    let header = header(
        &new_generics,
        &path,
        scalar_ident.as_str(),
        &target,
        Ghost(path_parts),
        Ghost(target_parts),
    );
    let output = output(&target, Ghost(target_parts));
    let method = method(
        method_name,
        scalar_ident.as_str(),
        &target,
        &block,
        Ghost(target_parts),
        Ghost(block_parts),
    );

    let mut tokens = Tokens::new();
    let done = emit_fragment(
        &mut tokens,
        &header,
        Ghost(Seq::empty()),
        Ghost(header_tokens(new_generics@, path_parts, scalar_ident@, target_parts)),
    );
    let done = emit(&mut tokens, "{", done);
    let done = emit_fragment(&mut tokens, &output, done, Ghost(output_tokens(target_parts)));
    let done = emit_fragment(
        &mut tokens,
        &method,
        done,
        Ghost(method_tokens(method_name@, scalar_ident@, target_parts, block_parts)),
    );
    let done = emit(&mut tokens, "}", done);
    assert(done@ =~= implementation_tokens(input@, layout, trait_name@, method_name@));
    Ok(tokens)
}

/// What `str::to_lowercase` makes of a text.
pub uninterp spec fn lowercase(text: Seq<char>) -> Seq<char>;

/// `str::to_lowercase`: the lowercase equivalent of the text, which depends on
/// the characters of the text alone.
#[verifier::external_body]
fn to_lowercase(text: &str) -> (lower: String)
    ensures
        lower@ == lowercase(text@),
{
    text.to_lowercase()
}

/// The implementation of the operator `trait_name` for the record that
/// `input` declares; no implementation if `input` does not declare a record
/// with at least one field. The method bears the operator's name in lowercase.
pub fn expand(input: &TypeDeclaration, trait_name: &str) -> (result: Result<
    Tokens,
    UnsupportedShape,
>)
    ensures
        result is Ok <==> supported_layout(input@.shape) is Some,
        result matches Ok(tokens) ==> expansion(input@, trait_name@, lowercase(trait_name@))
            == Some(token_text(tokens)),
        result matches Err(error) ==> error.operator@ == trait_name@,
{
    let method_name = to_lowercase(trait_name);
    expand_with_method(input, trait_name, method_name.as_str())
}

/// There is no implementation for a sum type, for a record declared without
/// a field list, or for a record whose field list is empty.
pub proof fn lemma_unsupported_shapes(
    declaration: TypeDeclarationView,
    trait_name: Seq<char>,
    method: Seq<char>,
)
    requires
        match declaration.shape {
            ShapeView::Record(layout) => layout.fields().len() == 0,
            ShapeView::Unit => true,
            ShapeView::Sum => true,
        },
    ensures
        expansion(declaration, trait_name, method) is None,
{
}

/// There is an implementation for every record with at least one field, be
/// the fields positional or all named.
pub proof fn lemma_supported_shapes(
    declaration: TypeDeclarationView,
    layout: FieldLayoutView,
    trait_name: Seq<char>,
    method: Seq<char>,
)
    requires
        declaration.shape == ShapeView::Record(layout),
        layout.fields().len() > 0,
        layout is Named ==> all_named(layout.fields()),
    ensures
        expansion(declaration, trait_name, method) == Some(
            glued(implementation_tokens(declaration, layout, trait_name, method)),
        ),
{
}

/// The implementation depends on nothing but the structure of the
/// declaration and the name of the operator: declarations with the same view
/// and operators with the same name have the same implementation, or none
/// both.
pub proof fn lemma_expansion_is_determined(
    first: TypeDeclaration,
    second: TypeDeclaration,
    first_trait: &str,
    second_trait: &str,
)
    requires
        first@ == second@,
        first_trait@ == second_trait@,
    ensures
        expansion(first@, first_trait@, lowercase(first_trait@)) == expansion(
            second@,
            second_trait@,
            lowercase(second_trait@),
        ),
{
}

} // verus!
