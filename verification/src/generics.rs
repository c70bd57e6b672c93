//! The constraint synthesizer: from the generics of a declaration and the
//! types of its fields to the generics of the emitted implementation.
//!
//! The implementation is generic over the type of the right-hand operand, the
//! scalar. Every distinct field type must support the operator with that
//! scalar and give back its own type, and the scalar must be `Copy` as soon as
//! more than one field uses it.

use crate::decimal::{decimal, decimal_string, lemma_decimal_injective, lemma_decimal_value};
use crate::model::{
    field_types, Constraint, ConstraintView, Field, FieldView, Generics, GenericsView,
    TypeDeclaration,
};
use crate::text::{emit, glued};
use crate::tokens::token_text;
use quote::Tokens;
use vstd::prelude::*;
use vstd::string::StringExecFns;

verus! {

/// The elements of `items` without repetition, each at the place of its first
/// occurrence.
pub open spec fn distinct(items: Seq<Seq<char>>) -> Seq<Seq<char>>
    decreases items.len(),
{
    if items.len() == 0 {
        Seq::empty()
    } else {
        let earlier = distinct(items.drop_last());
        if earlier.contains(items.last()) {
            earlier
        } else {
            earlier.push(items.last())
        }
    }
}

/// The name reserved for the scalar parameter.
pub open spec fn reserved_scalar() -> Seq<char> {
    "__rhs_T"@
}

/// The `k`-th name tried for the scalar parameter: the reserved name itself,
/// then the reserved name followed by 1, 2, 3, ...
pub open spec fn scalar_candidate(k: nat) -> Seq<char> {
    if k == 0 {
        reserved_scalar()
    } else {
        reserved_scalar() + decimal(k)
    }
}

/// The index of the first candidate from the `k`-th on that is not among
/// `names`. The search need not go beyond `names.len()`: so many names cannot
/// hold more candidates than that (see [`lemma_scalar_is_fresh`]).
pub open spec fn first_free(names: Seq<Seq<char>>, k: nat) -> nat
    decreases names.len() + 1 - k,
{
    if k <= names.len() && names.contains(scalar_candidate(k)) {
        first_free(names, k + 1)
    } else {
        k
    }
}

/// The name of the scalar parameter for a declaration whose type parameters
/// are called `names`: the first candidate that none of them bears.
pub open spec fn scalar_name(names: Seq<Seq<char>>) -> Seq<char> {
    scalar_candidate(first_free(names, 0))
}

/// The names of the type parameters.
pub open spec fn param_names(params: Seq<ConstraintView>) -> Seq<Seq<char>> {
    Seq::new(params.len(), |i: int| params[i].subject)
}

/// The tokens of the bound `<path><<scalar>, Output = <ty>>`.
pub open spec fn operator_bound_tokens(
    path: Seq<char>,
    scalar: Seq<char>,
    ty: Seq<char>,
) -> Seq<Seq<char>> {
    seq![path, "<"@, scalar, ","@, "Output"@, "="@, ty, ">"@]
}

/// The predicate `<ty>: <path><<scalar>, Output = <ty>>`: the type supports
/// the operator with the scalar and gives back its own type.
pub open spec fn operator_predicate(
    path: Seq<char>,
    scalar: Seq<char>,
    ty: Seq<char>,
) -> ConstraintView {
    ConstraintView { subject: ty, bounds: seq![glued(operator_bound_tokens(path, scalar, ty))] }
}

/// One operator predicate for each of `types`, in their order.
pub open spec fn operator_predicates(
    path: Seq<char>,
    scalar: Seq<char>,
    types: Seq<Seq<char>>,
) -> Seq<ConstraintView> {
    Seq::new(types.len(), |i: int| operator_predicate(path, scalar, types[i]))
}

/// The tokens of the path of `Copy`.
pub open spec fn copy_bound_tokens() -> Seq<Seq<char>> {
    seq!["::"@, "std"@, "::"@, "marker"@, "::"@, "Copy"@]
}

/// The scalar parameter of an implementation for a record of `field_count`
/// fields: it is bound to be `Copy` exactly if more than one field uses it.
pub open spec fn scalar_param(scalar: Seq<char>, field_count: nat) -> ConstraintView {
    ConstraintView {
        subject: scalar,
        bounds: if field_count > 1 {
            seq![glued(copy_bound_tokens())]
        } else {
            Seq::empty()
        },
    }
}

/// The generics of the implementation: those of the declaration, with the
/// scalar parameter appended to the type parameters and one operator predicate
/// for each distinct field type appended to the predicates.
pub open spec fn augmented(
    generics: GenericsView,
    fields: Seq<FieldView>,
    path: Seq<char>,
) -> GenericsView {
    let scalar = scalar_name(param_names(generics.type_params));
    GenericsView {
        lifetimes: generics.lifetimes,
        type_params: generics.type_params.push(scalar_param(scalar, fields.len())),
        predicates: generics.predicates + operator_predicates(
            path,
            scalar,
            distinct(field_types(fields)),
        ),
    }
}

/// Whether `ty` is among `types`.
fn is_listed(types: &Vec<String>, ty: &String) -> (found: bool)
    ensures
        found == types.deep_view().contains(ty@),
{
    let mut i: usize = 0;
    while i < types.len()
        invariant
            i <= types.len(),
            forall|k: int| 0 <= k < i ==> types.deep_view()[k] != ty@,
        decreases types.len() - i,
    {
        if types[i] == *ty {
            assert(types.deep_view()[i as int] == ty@);
            return true;
        }
        i += 1;
    }
    false
}

/// The types of the fields without repetition, each at the place of its first
/// occurrence.
fn distinct_types(fields: &Vec<Field>) -> (types: Vec<String>)
    ensures
        types.deep_view() == distinct(field_types(fields.deep_view())),
{
    let ghost all = field_types(fields.deep_view());
    let mut types: Vec<String> = Vec::new();
    let mut i: usize = 0;
    while i < fields.len()
        invariant
            i <= fields.len(),
            all == field_types(fields.deep_view()),
            types.deep_view() == distinct(all.take(i as int)),
        decreases fields.len() - i,
    {
        assert(all.take(i + 1).drop_last() =~= all.take(i as int));
        if !is_listed(&types, &fields[i].ty) {
            types.push(fields[i].ty.clone());
        }
        i += 1;
    }
    assert(all.take(i as int) =~= all);
    types
}

/// Whether one of the type parameters bears `name`.
fn is_taken(params: &Vec<Constraint>, name: &String) -> (taken: bool)
    ensures
        taken == param_names(params.deep_view()).contains(name@),
{
    let ghost names = param_names(params.deep_view());
    let mut i: usize = 0;
    while i < params.len()
        invariant
            i <= params.len(),
            names == param_names(params.deep_view()),
            forall|k: int| 0 <= k < i ==> names[k] != name@,
        decreases params.len() - i,
    {
        if params[i].subject == *name {
            assert(names[i as int] == name@);
            return true;
        }
        i += 1;
    }
    false
}

/// The `k`-th name tried for the scalar parameter.
fn candidate(k: usize) -> (name: String)
    ensures
        name@ == scalar_candidate(k as nat),
{
    let reserved = String::from_str("__rhs_T");
    if k == 0 {
        reserved
    } else {
        let suffix = decimal_string(k);
        reserved.concat(suffix.as_str())
    }
}

/// The name of the scalar parameter: the first candidate that none of the
/// type parameters bears.
pub fn fresh_scalar(params: &Vec<Constraint>) -> (scalar: String)
    ensures
        scalar@ == scalar_name(param_names(params.deep_view())),
        !param_names(params.deep_view()).contains(scalar@),
{
    let ghost names = param_names(params.deep_view());
    proof {
        lemma_scalar_is_fresh(names);
    }
    let mut k: usize = 0;
    loop
        invariant
            k <= params.len(),
            names == param_names(params.deep_view()),
            forall|j: nat| j < k ==> names.contains(#[trigger] scalar_candidate(j)),
            first_free(names, k as nat) == first_free(names, 0),
        decreases params.len() - k,
    {
        let name = candidate(k);
        if !is_taken(params, &name) {
            return name;
        }
        proof {
            lemma_candidates_fill(names, (k + 1) as nat);
        }
        k += 1;
    }
}

/// The bound `<path><<scalar>, Output = <ty>>`.
fn operator_bound(trait_path: &Tokens, scalar: &str, ty: &str) -> (bound: String)
    ensures
        bound@ == glued(operator_bound_tokens(token_text(*trait_path), scalar@, ty@)),
{
    let mut tokens = Tokens::new();
    let done = Ghost(Seq::empty());
    let done = emit(&mut tokens, trait_path.as_str(), done);
    let done = emit(&mut tokens, "<", done);
    let done = emit(&mut tokens, scalar, done);
    let done = emit(&mut tokens, ",", done);
    let done = emit(&mut tokens, "Output", done);
    let done = emit(&mut tokens, "=", done);
    let done = emit(&mut tokens, ty, done);
    let done = emit(&mut tokens, ">", done);
    assert(done@ =~= operator_bound_tokens(token_text(*trait_path), scalar@, ty@));
    tokens.as_str().to_owned()
}

/// The path of `Copy`.
fn copy_bound() -> (bound: String)
    ensures
        bound@ == glued(copy_bound_tokens()),
{
    let mut tokens = Tokens::new();
    let done = Ghost(Seq::empty());
    let done = emit(&mut tokens, "::", done);
    let done = emit(&mut tokens, "std", done);
    let done = emit(&mut tokens, "::", done);
    let done = emit(&mut tokens, "marker", done);
    let done = emit(&mut tokens, "::", done);
    let done = emit(&mut tokens, "Copy", done);
    assert(done@ =~= copy_bound_tokens());
    tokens.as_str().to_owned()
}

/// The generics of the implementation of the operator with path `trait_path`
/// for the declaration `input` with the fields `fields`, and the name of the
/// scalar parameter.
///
/// The lifetimes stay as they are. The scalar parameter comes after the type
/// parameters of the declaration, bound to be `Copy` exactly if there is more
/// than one field. After the predicates of the declaration comes one operator
/// predicate for each distinct field type, in the order of first occurrence.
pub fn get_mul_generics(
    input: &TypeDeclaration,
    fields: &Vec<Field>,
    trait_path: &Tokens,
) -> (result: (Generics, String))
    ensures
        result.0@ == augmented(input@.generics, fields.deep_view(), token_text(*trait_path)),
        result.1@ == scalar_name(param_names(input@.generics.type_params)),
        !param_names(input@.generics.type_params).contains(result.1@),
{
    let scalar_ident = fresh_scalar(&input.generics.type_params);
    let tys = distinct_types(fields);
    let ghost path = token_text(*trait_path);
    let ghost types = distinct(field_types(fields.deep_view()));

    let mut new_generics = input.generics.clone();
    let ghost declared = new_generics.predicates.deep_view();
    let mut i: usize = 0;
    while i < tys.len()
        invariant
            i <= tys.len(),
            path == token_text(*trait_path),
            tys.deep_view() == types,
            new_generics.lifetimes.deep_view() == input@.generics.lifetimes,
            new_generics.type_params.deep_view() == input@.generics.type_params,
            new_generics.predicates.deep_view() == declared + operator_predicates(
                path,
                scalar_ident@,
                types.take(i as int),
            ),
        decreases tys.len() - i,
    {
        let ghost earlier = new_generics.predicates.deep_view();
        let bound = operator_bound(trait_path, scalar_ident.as_str(), tys[i].as_str());
        let predicate = Constraint { subject: tys[i].clone(), bounds: vec![bound] };
        assert(predicate@ == operator_predicate(path, scalar_ident@, types[i as int])) by {
            assert(predicate.bounds.deep_view() =~= seq![bound@]);
        }
        new_generics.predicates.push(predicate);
        assert(earlier.push(predicate@) =~= declared + operator_predicates(
            path,
            scalar_ident@,
            types.take(i + 1),
        ));
        i += 1;
    }
    assert(types.take(i as int) =~= types);

    let constraints = if fields.len() > 1 {
        // The scalar is used once for each field.
        vec![copy_bound()]
    } else {
        Vec::new()
    };
    let new_typaram = Constraint { subject: scalar_ident.clone(), bounds: constraints };
    assert(new_typaram@ == scalar_param(scalar_ident@, fields.deep_view().len())) by {
        assert(new_typaram.bounds.deep_view() =~= scalar_param(
            scalar_ident@,
            fields.deep_view().len(),
        ).bounds);
    }
    let ghost params = new_generics.type_params.deep_view();
    new_generics.type_params.push(new_typaram);
    assert(new_generics.type_params.deep_view() =~= params.push(new_typaram@));
    (new_generics, scalar_ident)
}

/// Nothing occurs twice among the distinct elements, and they are the
/// elements of the list and no others.
pub proof fn lemma_distinct(items: Seq<Seq<char>>)
    ensures
        distinct(items).no_duplicates(),
        forall|item: Seq<char>| distinct(items).contains(item) <==> items.contains(item),
    decreases items.len(),
{
    if items.len() > 0 {
        let earlier = distinct(items.drop_last());
        lemma_distinct(items.drop_last());
        assert forall|item: Seq<char>| distinct(items).contains(item) <==> items.contains(
            item,
        ) by {
            if items.contains(item) {
                let at = choose|i: int| 0 <= i < items.len() && items[i] == item;
                if at < items.len() - 1 {
                    assert(items.drop_last()[at] == item);
                    assert(items.drop_last().contains(item));
                    assert(earlier.contains(item));
                    let k = choose|k: int| 0 <= k < earlier.len() && earlier[k] == item;
                    assert(distinct(items)[k] == item);
                } else if !earlier.contains(item) {
                    assert(distinct(items)[earlier.len() as int] == item);
                }
            }
            if distinct(items).contains(item) {
                let k = choose|k: int| 0 <= k < distinct(items).len() && distinct(items)[k] == item;
                if k < earlier.len() {
                    assert(earlier[k] == item);
                    assert(earlier.contains(item));
                    assert(items.drop_last().contains(item));
                    let at = choose|i: int|
                        0 <= i < items.drop_last().len() && items.drop_last()[i] == item;
                    assert(items[at] == item);
                } else {
                    assert(items[items.len() - 1] == item);
                }
            }
        }
    }
}

/// The distinct elements stand in the order of their first occurrence: those
/// of a beginning of the list are a beginning of those of the whole list.
pub proof fn lemma_distinct_keeps_order(items: Seq<Seq<char>>, count: int)
    requires
        0 <= count <= items.len(),
    ensures
        distinct(items.take(count)).is_prefix_of(distinct(items)),
    decreases items.len() - count,
{
    if count == items.len() {
        assert(items.take(count) =~= items);
    } else {
        lemma_distinct_keeps_order(items, count + 1);
        assert(items.take(count + 1).drop_last() =~= items.take(count));
    }
}

/// Every field type has exactly one operator predicate, however many fields
/// share the type, and every operator predicate is that of a field type.
pub proof fn lemma_one_predicate_for_each_type(
    path: Seq<char>,
    scalar: Seq<char>,
    fields: Seq<FieldView>,
    i: int,
)
    requires
        0 <= i < fields.len(),
    ensures
        ({
            let predicates = operator_predicates(path, scalar, distinct(field_types(fields)));
            &&& exists|k: int|
                {
                    &&& 0 <= k < predicates.len()
                    &&& #[trigger] predicates[k] == operator_predicate(path, scalar, fields[i].ty)
                    &&& forall|j: int|
                        0 <= j < predicates.len() && (#[trigger] predicates[j]).subject
                            == fields[i].ty ==> j == k
                }
            &&& forall|k: int|
                0 <= k < predicates.len() ==> field_types(fields).contains(
                    (#[trigger] predicates[k]).subject,
                )
        }),
{
    let types = field_types(fields);
    let kept = distinct(types);
    let predicates = operator_predicates(path, scalar, kept);
    lemma_distinct(types);
    assert(types[i] == fields[i].ty);
    assert(types.contains(fields[i].ty));
    assert(kept.contains(fields[i].ty));
    let k = choose|k: int| 0 <= k < kept.len() && kept[k] == fields[i].ty;
    assert(predicates[k] == operator_predicate(path, scalar, fields[i].ty));
    assert forall|j: int|
        0 <= j < predicates.len() && (#[trigger] predicates[j]).subject == fields[i].ty implies j
        == k by {
        assert(kept[j] == kept[k]);
    }
    assert forall|k: int| 0 <= k < predicates.len() implies field_types(fields).contains(
        (#[trigger] predicates[k]).subject,
    ) by {
        assert(kept.contains(kept[k]));
    }
}

/// The scalar parameter is the last type parameter of the implementation. It
/// is bound to be `Copy` if the record has more than one field, and carries no
/// bound if it has one field.
pub proof fn lemma_copy_bound(generics: GenericsView, fields: Seq<FieldView>, path: Seq<char>)
    ensures
        ({
            let scalar = augmented(generics, fields, path).type_params.last();
            &&& scalar.subject == scalar_name(param_names(generics.type_params))
            &&& fields.len() > 1 ==> scalar.bounds == seq![glued(copy_bound_tokens())]
            &&& fields.len() <= 1 ==> scalar.bounds == Seq::<Seq<char>>::empty()
        }),
{
}

/// The generics of the declaration stay as they are: the lifetimes, the type
/// parameters before the scalar and the predicates before the operator
/// predicates are those of the declaration.
pub proof fn lemma_generics_are_kept(
    generics: GenericsView,
    fields: Seq<FieldView>,
    path: Seq<char>,
)
    ensures
        ({
            let new = augmented(generics, fields, path);
            &&& new.lifetimes == generics.lifetimes
            &&& new.type_params.drop_last() == generics.type_params
            &&& generics.predicates.is_prefix_of(new.predicates)
        }),
{
    let new = augmented(generics, fields, path);
    assert(new.type_params.drop_last() =~= generics.type_params);
}

/// Different candidates are different names.
pub proof fn lemma_candidates_differ(a: nat, b: nat)
    requires
        scalar_candidate(a) == scalar_candidate(b),
    ensures
        a == b,
{
    lemma_decimal_value(a);
    lemma_decimal_value(b);
    let reserved = reserved_scalar();
    if a > 0 && b > 0 {
        assert(decimal(a) =~= (reserved + decimal(a)).subrange(
            reserved.len() as int,
            (reserved + decimal(a)).len() as int,
        ));
        assert(decimal(b) =~= (reserved + decimal(b)).subrange(
            reserved.len() as int,
            (reserved + decimal(b)).len() as int,
        ));
        lemma_decimal_injective(a, b);
    } else if a > 0 {
        assert((reserved + decimal(a)).len() > reserved.len());
    } else if b > 0 {
        assert((reserved + decimal(b)).len() > reserved.len());
    }
}

/// A list of names that holds each of the first `count` candidates has at
/// least `count` entries.
pub proof fn lemma_candidates_fill(names: Seq<Seq<char>>, count: nat)
    requires
        forall|j: nat| j < count ==> names.contains(#[trigger] scalar_candidate(j)),
    ensures
        count <= names.len(),
    decreases count,
{
    if count > 0 {
        let last = scalar_candidate((count - 1) as nat);
        assert(names.contains(last));
        let at = choose|i: int| 0 <= i < names.len() && names[i] == last;
        let rest = names.remove(at);
        assert forall|j: nat| j < count - 1 implies rest.contains(
            #[trigger] scalar_candidate(j),
        ) by {
            let other = scalar_candidate(j);
            assert(names.contains(other));
            let p = choose|p: int| 0 <= p < names.len() && names[p] == other;
            if other == last {
                lemma_candidates_differ(j, (count - 1) as nat);
            }
            if p < at {
                assert(rest[p] == other);
            } else {
                assert(rest[p - 1] == other);
            }
        }
        lemma_candidates_fill(rest, (count - 1) as nat);
    }
}

/// The scalar parameter is fresh: its name is the first candidate that no
/// type parameter of the declaration bears.
pub proof fn lemma_scalar_is_fresh(names: Seq<Seq<char>>)
    ensures
        !names.contains(scalar_name(names)),
        first_free(names, 0) <= names.len(),
        forall|j: nat| j < first_free(names, 0) ==> names.contains(#[trigger] scalar_candidate(j)),
{
    lemma_first_free(names, 0);
}

/// What `first_free` finds, given that every candidate before the `k`-th is
/// taken.
proof fn lemma_first_free(names: Seq<Seq<char>>, k: nat)
    requires
        forall|j: nat| j < k ==> names.contains(#[trigger] scalar_candidate(j)),
    ensures
        !names.contains(scalar_candidate(first_free(names, k))),
        first_free(names, k) <= names.len(),
        forall|j: nat|
            j < first_free(names, k) ==> names.contains(#[trigger] scalar_candidate(j)),
    decreases names.len() + 1 - k,
{
    lemma_candidates_fill(names, k);
    if names.contains(scalar_candidate(k)) {
        lemma_candidates_fill(names, k + 1);
        lemma_first_free(names, k + 1);
    }
}

} // verus!
