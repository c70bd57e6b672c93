//! How generics are written: as the parameter list of an `impl`, as the
//! generic arguments of the type, and as a `where` clause.

use crate::model::{Constraint, ConstraintView, Generics, GenericsView};
use crate::text::{emit, emit_fragment, emit_separated, glued, glued_each, separated, texts};
use crate::tokens::token_text;
use quote::Tokens;
use vstd::prelude::*;

verus! {

/// Each of `bounds` as a list item of one token.
pub open spec fn bound_items(bounds: Seq<Seq<char>>) -> Seq<Seq<Seq<char>>> {
    Seq::new(bounds.len(), |i: int| seq![bounds[i]])
}

/// The tokens of a constraint: the subject, and if it has bounds a colon and
/// the bounds with `+` between them.
pub open spec fn constraint_tokens(constraint: ConstraintView) -> Seq<Seq<char>> {
    if constraint.bounds.len() > 0 {
        seq![constraint.subject, ":"@] + separated(bound_items(constraint.bounds), "+"@)
    } else {
        seq![constraint.subject]
    }
}

/// Each of `constraints` as a list item, with its bounds.
pub open spec fn constraint_items(constraints: Seq<ConstraintView>) -> Seq<Seq<Seq<char>>> {
    Seq::new(constraints.len(), |i: int| constraint_tokens(constraints[i]))
}

/// Each of `constraints` as a list item, without its bounds.
pub open spec fn subject_items(constraints: Seq<ConstraintView>) -> Seq<Seq<Seq<char>>> {
    Seq::new(constraints.len(), |i: int| seq![constraints[i].subject])
}

/// The tokens of the parameter list of an `impl`: lifetimes, then type
/// parameters, each with its bounds; nothing at all if there is no parameter.
pub open spec fn impl_generics_tokens(generics: GenericsView) -> Seq<Seq<char>> {
    let params = generics.lifetimes + generics.type_params;
    if params.len() > 0 {
        seq!["<"@] + separated(constraint_items(params), ","@) + seq![">"@]
    } else {
        Seq::empty()
    }
}

/// The tokens of the generic arguments of the type: lifetimes, then type
/// parameters, by name alone; nothing at all if there is no parameter.
pub open spec fn ty_generics_tokens(generics: GenericsView) -> Seq<Seq<char>> {
    let params = generics.lifetimes + generics.type_params;
    if params.len() > 0 {
        seq!["<"@] + separated(subject_items(params), ","@) + seq![">"@]
    } else {
        Seq::empty()
    }
}

/// The tokens of the `where` clause; nothing at all if there is no predicate.
pub open spec fn where_clause_tokens(predicates: Seq<ConstraintView>) -> Seq<Seq<char>> {
    if predicates.len() > 0 {
        seq!["where"@] + separated(constraint_items(predicates), ","@)
    } else {
        Seq::empty()
    }
}

/// Each bound as a fragment of one token.
fn bound_fragments(bounds: &Vec<String>) -> (items: Vec<Tokens>)
    ensures
        items@.len() == bounds@.len(),
        forall|i: int|
            0 <= i < items@.len() ==> token_text(#[trigger] items@[i]) == glued(
                bound_items(bounds.deep_view())[i],
            ),
{
    let mut items: Vec<Tokens> = Vec::new();
    let mut i: usize = 0;
    while i < bounds.len()
        invariant
            i <= bounds.len(),
            items@.len() == i,
            forall|k: int|
                0 <= k < i ==> token_text(#[trigger] items@[k]) == glued(
                    bound_items(bounds.deep_view())[k],
                ),
        decreases bounds.len() - i,
    {
        let mut item = Tokens::new();
        let done = emit(&mut item, bounds[i].as_str(), Ghost(Seq::empty()));
        assert(done@ =~= bound_items(bounds.deep_view())[i as int]);
        items.push(item);
        i += 1;
    }
    items
}

/// A constraint as a fragment: the subject, and if it has bounds a colon and
/// the bounds with `+` between them.
fn constraint_fragment(constraint: &Constraint) -> (fragment: Tokens)
    ensures
        token_text(fragment) == glued(constraint_tokens(constraint@)),
{
    let mut fragment = Tokens::new();
    let done = emit(&mut fragment, constraint.subject.as_str(), Ghost(Seq::empty()));
    if constraint.bounds.len() > 0 {
        let bounds = bound_fragments(&constraint.bounds);
        let ghost listed = bound_items(constraint@.bounds);
        assert(texts(bounds@) =~= glued_each(listed));
        let done = emit(&mut fragment, ":", done);
        let done = emit_separated(&mut fragment, &bounds, "+", done, Ghost(listed));
        assert(done@ =~= constraint_tokens(constraint@));
    }
    fragment
}

/// Pushes each of `constraints` as a fragment, with its bounds.
fn push_constraints(items: &mut Vec<Tokens>, constraints: &Vec<Constraint>)
    ensures
        texts(final(items)@) == texts(old(items)@) + glued_each(
            constraint_items(constraints.deep_view()),
        ),
{
    let ghost before = texts(items@);
    let ghost listed = constraint_items(constraints.deep_view());
    let mut i: usize = 0;
    while i < constraints.len()
        invariant
            i <= constraints.len(),
            listed == constraint_items(constraints.deep_view()),
            texts(items@) == before + glued_each(listed.take(i as int)),
        decreases constraints.len() - i,
    {
        let ghost earlier = texts(items@);
        let fragment = constraint_fragment(&constraints[i]);
        items.push(fragment);
        assert(texts(items@) =~= earlier.push(glued(listed[i as int])));
        assert(earlier.push(glued(listed[i as int])) =~= before + glued_each(listed.take(i + 1)));
        i += 1;
    }
    assert(listed.take(i as int) =~= listed);
}

/// Pushes each of `constraints` as a fragment, without its bounds.
fn push_subjects(items: &mut Vec<Tokens>, constraints: &Vec<Constraint>)
    ensures
        texts(final(items)@) == texts(old(items)@) + glued_each(
            subject_items(constraints.deep_view()),
        ),
{
    let ghost before = texts(items@);
    let ghost listed = subject_items(constraints.deep_view());
    let mut i: usize = 0;
    while i < constraints.len()
        invariant
            i <= constraints.len(),
            listed == subject_items(constraints.deep_view()),
            texts(items@) == before + glued_each(listed.take(i as int)),
        decreases constraints.len() - i,
    {
        let ghost earlier = texts(items@);
        let mut fragment = Tokens::new();
        let done = emit(&mut fragment, constraints[i].subject.as_str(), Ghost(Seq::empty()));
        assert(done@ =~= listed[i as int]);
        items.push(fragment);
        assert(texts(items@) =~= earlier.push(glued(listed[i as int])));
        assert(earlier.push(glued(listed[i as int])) =~= before + glued_each(listed.take(i + 1)));
        i += 1;
    }
    assert(listed.take(i as int) =~= listed);
}

/// The parameter list of an `impl` with these generics.
pub fn impl_generics(generics: &Generics) -> (fragment: Tokens)
    ensures
        token_text(fragment) == glued(impl_generics_tokens(generics@)),
{
    let ghost params = constraint_items(generics@.lifetimes + generics@.type_params);
    let mut fragment = Tokens::new();
    if generics.lifetimes.len() > 0 || generics.type_params.len() > 0 {
        let mut items: Vec<Tokens> = Vec::new();
        push_constraints(&mut items, &generics.lifetimes);
        push_constraints(&mut items, &generics.type_params);
        assert(texts(items@) =~= glued_each(params));
        let done = emit(&mut fragment, "<", Ghost(Seq::empty()));
        let done = emit_separated(&mut fragment, &items, ",", done, Ghost(params));
        let done = emit(&mut fragment, ">", done);
        assert(done@ =~= impl_generics_tokens(generics@));
    }
    fragment
}

/// The generic arguments of a type with these generics.
pub fn ty_generics(generics: &Generics) -> (fragment: Tokens)
    ensures
        token_text(fragment) == glued(ty_generics_tokens(generics@)),
{
    let ghost params = subject_items(generics@.lifetimes + generics@.type_params);
    let mut fragment = Tokens::new();
    if generics.lifetimes.len() > 0 || generics.type_params.len() > 0 {
        let mut items: Vec<Tokens> = Vec::new();
        push_subjects(&mut items, &generics.lifetimes);
        push_subjects(&mut items, &generics.type_params);
        assert(texts(items@) =~= glued_each(params));
        let done = emit(&mut fragment, "<", Ghost(Seq::empty()));
        let done = emit_separated(&mut fragment, &items, ",", done, Ghost(params));
        let done = emit(&mut fragment, ">", done);
        assert(done@ =~= ty_generics_tokens(generics@));
    }
    fragment
}

/// The `where` clause of these generics.
pub fn where_clause(generics: &Generics) -> (fragment: Tokens)
    ensures
        token_text(fragment) == glued(where_clause_tokens(generics@.predicates)),
{
    let ghost predicates = constraint_items(generics@.predicates);
    let mut fragment = Tokens::new();
    if generics.predicates.len() > 0 {
        let mut items: Vec<Tokens> = Vec::new();
        push_constraints(&mut items, &generics.predicates);
        assert(texts(items@) =~= glued_each(predicates));
        let done = emit(&mut fragment, "where", Ghost(Seq::empty()));
        let done = emit_separated(&mut fragment, &items, ",", done, Ghost(predicates));
        assert(done@ =~= where_clause_tokens(generics@.predicates));
    }
    fragment
}

} // verus!
