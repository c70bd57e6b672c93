//! The field-expression builder: from a field layout and a method name to the
//! expression that applies the method to every field and puts the results
//! back together in the shape of the record.

use crate::decimal::{decimal, decimal_string};
use crate::model::{all_named, Field, FieldView};
use crate::text::{
    emit, emit_fragment, emit_separated, glued, glued_each, lemma_separated_layout, separated,
    texts,
};
use crate::tokens::token_text;
use quote::Tokens;
use vstd::prelude::*;

verus! {

/// The tokens of `self.<accessor>.<method>(rhs)`.
pub open spec fn access_tokens(accessor: Seq<char>, method: Seq<char>) -> Seq<Seq<char>> {
    seq!["self"@, "."@, accessor, "."@, method, "("@, "rhs"@, ")"@]
}

/// For each of `count` positional fields, the tokens of the method applied to
/// it: the accessor of a field is its zero-based position.
pub open spec fn positional_accesses(count: nat, method: Seq<char>) -> Seq<Seq<Seq<char>>> {
    Seq::new(count, |i: int| access_tokens(decimal(i as nat), method))
}

/// For each named field, the tokens of its initializer: the name, a colon, and
/// the method applied to the field.
pub open spec fn named_initializers(
    fields: Seq<FieldView>,
    method: Seq<char>,
) -> Seq<Seq<Seq<char>>> {
    Seq::new(
        fields.len(),
        |i: int|
            seq![fields[i].name.unwrap(), ":"@] + access_tokens(fields[i].name.unwrap(), method),
    )
}

/// The tokens of the positional constructor call
/// `<name>(self.0.<method>(rhs), self.1.<method>(rhs), ...)` with `count`
/// arguments.
pub open spec fn positional_constructor(
    name: Seq<char>,
    count: nat,
    method: Seq<char>,
) -> Seq<Seq<char>> {
    seq![name, "("@] + separated(positional_accesses(count, method), ","@) + seq![")"@]
}

/// The tokens of the named constructor
/// `<name>{f: self.f.<method>(rhs), g: self.g.<method>(rhs), ...}` with one
/// initializer per field, in declaration order.
pub open spec fn named_constructor(
    name: Seq<char>,
    fields: Seq<FieldView>,
    method: Seq<char>,
) -> Seq<Seq<char>> {
    seq![name, "{"@] + separated(named_initializers(fields, method), ","@) + seq!["}"@]
}

/// A positional constructor call for `count` fields has exactly `count`
/// arguments between its parentheses, parted by commas, and its `i`-th
/// argument is `self.<i>.<method>(rhs)`.
///
/// An argument has eight tokens. With the comma after it that makes nine, so
/// the `i`-th argument begins at token `2 + 9 * i`, behind the name and the
/// opening parenthesis.
pub proof fn lemma_positional_constructor(name: Seq<char>, count: nat, method: Seq<char>, i: int)
    requires
        0 <= i < count,
    ensures
        ({
            let call = positional_constructor(name, count, method);
            &&& call.len() == 9 * count + 2
            &&& call[0] == name
            &&& call[1] == "("@
            &&& call.subrange(2 + 9 * i, 10 + 9 * i) == access_tokens(decimal(i as nat), method)
            &&& i > 0 ==> call[1 + 9 * i] == ","@
            &&& call[call.len() - 1] == ")"@
        }),
{
    let arguments = positional_accesses(count, method);
    let list = separated(arguments, ","@);
    let call = positional_constructor(name, count, method);
    assert forall|k: int| 0 <= k < arguments.len() implies (#[trigger] arguments[k]).len()
        == 8 by {
        assert(arguments[k] == access_tokens(decimal(k as nat), method));
    }
    lemma_separated_layout(arguments, ","@, 8, i);
    assert(arguments.len() * (8nat + 1) == 9 * count) by (nonlinear_arith)
        requires
            arguments.len() == count,
    ;
    assert(i * (8nat + 1) == 9 * i) by (nonlinear_arith);
    assert(call.subrange(2 + 9 * i, 10 + 9 * i) =~= list.subrange(9 * i, 9 * i + 8));
}

/// A named constructor has exactly one initializer per field between its
/// braces, parted by commas and in declaration order, and the initializer of
/// the `i`-th field `f` is `f: self.f.<method>(rhs)`.
///
/// An initializer has ten tokens. With the comma after it that makes eleven,
/// so the `i`-th initializer begins at token `2 + 11 * i`, behind the name
/// and the opening brace.
pub proof fn lemma_named_constructor(
    name: Seq<char>,
    fields: Seq<FieldView>,
    method: Seq<char>,
    i: int,
)
    requires
        all_named(fields),
        0 <= i < fields.len(),
    ensures
        ({
            let literal = named_constructor(name, fields, method);
            let field = fields[i].name.unwrap();
            &&& literal.len() == 11 * fields.len() + 2
            &&& literal[0] == name
            &&& literal[1] == "{"@
            &&& literal[2 + 11 * i] == field
            &&& literal[3 + 11 * i] == ":"@
            &&& literal.subrange(4 + 11 * i, 12 + 11 * i) == access_tokens(field, method)
            &&& i > 0 ==> literal[1 + 11 * i] == ","@
            &&& literal[literal.len() - 1] == "}"@
        }),
{
    let initializers = named_initializers(fields, method);
    let list = separated(initializers, ","@);
    let literal = named_constructor(name, fields, method);
    let field = fields[i].name.unwrap();
    assert forall|k: int| 0 <= k < initializers.len() implies (#[trigger] initializers[k]).len()
        == 10 by {
        assert(initializers[k] == seq![fields[k].name.unwrap(), ":"@] + access_tokens(
            fields[k].name.unwrap(),
            method,
        ));
    }
    lemma_separated_layout(initializers, ","@, 10, i);
    assert(initializers.len() * (10nat + 1) == 11 * fields.len()) by (nonlinear_arith)
        requires
            initializers.len() == fields.len(),
    ;
    assert(i * (10nat + 1) == 11 * i) by (nonlinear_arith);
    assert(initializers[i] == seq![field, ":"@] + access_tokens(field, method));
    assert(list.subrange(11 * i, 11 * i + 10)[0] == field);
    assert(list.subrange(11 * i, 11 * i + 10)[1] == ":"@);
    assert(literal.subrange(4 + 11 * i, 12 + 11 * i) =~= list.subrange(
        11 * i,
        11 * i + 10,
    ).subrange(2, 10));
    assert(initializers[i].subrange(2, 10) =~= access_tokens(field, method));
}

/// The expression `self.<accessor>.<method>(rhs)`.
fn access(accessor: &str, method: &str) -> (expr: Tokens)
    ensures
        token_text(expr) == glued(access_tokens(accessor@, method@)),
{
    let mut expr = Tokens::new();
    let done = Ghost(Seq::empty());
    let done = emit(&mut expr, "self", done);
    let done = emit(&mut expr, ".", done);
    let done = emit(&mut expr, accessor, done);
    let done = emit(&mut expr, ".", done);
    let done = emit(&mut expr, method, done);
    let done = emit(&mut expr, "(", done);
    let done = emit(&mut expr, "rhs", done);
    let done = emit(&mut expr, ")", done);
    assert(done@ =~= access_tokens(accessor@, method@));
    expr
}

/// One expression per positional field, in declaration order: the `i`-th is
/// `self.<i>.<method>(rhs)`.
pub fn tuple_exprs(fields: &Vec<Field>, method_ident: &str) -> (exprs: Vec<Tokens>)
    ensures
        exprs@.len() == fields@.len(),
        forall|i: int|
            0 <= i < exprs@.len() ==> token_text(#[trigger] exprs@[i]) == glued(
                access_tokens(decimal(i as nat), method_ident@),
            ),
{
    let mut exprs: Vec<Tokens> = Vec::new();
    let mut i: usize = 0;
    while i < fields.len()
        invariant
            i <= fields.len(),
            exprs@.len() == i,
            forall|k: int|
                0 <= k < i ==> token_text(#[trigger] exprs@[k]) == glued(
                    access_tokens(decimal(k as nat), method_ident@),
                ),
        decreases fields.len() - i,
    {
        let index = decimal_string(i);
        exprs.push(access(index.as_str(), method_ident));
        i += 1;
    }
    exprs
}

/// One expression per named field, in declaration order: that of a field `f`
/// is `self.f.<method>(rhs)`.
pub fn struct_exprs(fields: &Vec<Field>, method_ident: &str) -> (exprs: Vec<Tokens>)
    requires
        all_named(fields.deep_view()),
    ensures
        exprs@.len() == fields@.len(),
        forall|i: int|
            0 <= i < exprs@.len() ==> token_text(#[trigger] exprs@[i]) == glued(
                access_tokens(fields.deep_view()[i].name.unwrap(), method_ident@),
            ),
{
    let mut exprs: Vec<Tokens> = Vec::new();
    let mut i: usize = 0;
    while i < fields.len()
        invariant
            i <= fields.len(),
            exprs@.len() == i,
            all_named(fields.deep_view()),
            forall|k: int|
                0 <= k < i ==> token_text(#[trigger] exprs@[k]) == glued(
                    access_tokens(fields.deep_view()[k].name.unwrap(), method_ident@),
                ),
        decreases fields.len() - i,
    {
        assert(fields.deep_view()[i as int].name is Some);
        let expr = match &fields[i].name {
            Some(name) => access(name.as_str(), method_ident),
            None => unreached(),
        };
        exprs.push(expr);
        i += 1;
    }
    exprs
}

/// The positional constructor call that rebuilds a record of type
/// `input_type` from the method applied to each of its fields.
pub fn tuple_content(input_type: &str, fields: &Vec<Field>, method_ident: &str) -> (block: Tokens)
    ensures
        token_text(block) == glued(
            positional_constructor(input_type@, fields@.len(), method_ident@),
        ),
{
    let exprs = tuple_exprs(fields, method_ident);
    let ghost arguments = positional_accesses(fields@.len(), method_ident@);
    assert(texts(exprs@) =~= glued_each(arguments));
    let mut block = Tokens::new();
    let done = Ghost(Seq::empty());
    let done = emit(&mut block, input_type, done);
    let done = emit(&mut block, "(", done);
    let done = emit_separated(&mut block, &exprs, ",", done, Ghost(arguments));
    let done = emit(&mut block, ")", done);
    assert(done@ =~= positional_constructor(input_type@, fields@.len(), method_ident@));
    block
}

/// One initializer per named field, in declaration order: that of a field `f`
/// is `f: self.f.<method>(rhs)`.
fn struct_initializers(fields: &Vec<Field>, method_ident: &str) -> (initializers: Vec<Tokens>)
    requires
        all_named(fields.deep_view()),
    ensures
        initializers@.len() == fields@.len(),
        forall|i: int|
            0 <= i < initializers@.len() ==> token_text(#[trigger] initializers@[i]) == glued(
                named_initializers(fields.deep_view(), method_ident@)[i],
            ),
{
    let exprs = struct_exprs(fields, method_ident);
    let mut initializers: Vec<Tokens> = Vec::new();
    let mut i: usize = 0;
    while i < fields.len()
        invariant
            i <= fields.len(),
            initializers@.len() == i,
            exprs@.len() == fields@.len(),
            all_named(fields.deep_view()),
            forall|k: int|
                0 <= k < exprs@.len() ==> token_text(#[trigger] exprs@[k]) == glued(
                    access_tokens(fields.deep_view()[k].name.unwrap(), method_ident@),
                ),
            forall|k: int|
                0 <= k < i ==> token_text(#[trigger] initializers@[k]) == glued(
                    named_initializers(fields.deep_view(), method_ident@)[k],
                ),
        decreases fields.len() - i,
    {
        let ghost name = fields.deep_view()[i as int].name.unwrap();
        assert(fields.deep_view()[i as int].name is Some);
        let mut initializer = Tokens::new();
        let done = Ghost(Seq::empty());
        let done = match &fields[i].name {
            Some(name) => emit(&mut initializer, name.as_str(), done),
            None => unreached(),
        };
        let done = emit(&mut initializer, ":", done);
        let done = emit_fragment(
            &mut initializer,
            &exprs[i],
            done,
            Ghost(access_tokens(name, method_ident@)),
        );
        assert(done@ =~= named_initializers(fields.deep_view(), method_ident@)[i as int]);
        initializers.push(initializer);
        i += 1;
    }
    initializers
}

/// The named constructor that rebuilds a record of type `input_type` from the
/// method applied to each of its fields.
pub fn struct_content(input_type: &str, fields: &Vec<Field>, method_ident: &str) -> (block: Tokens)
    requires
        all_named(fields.deep_view()),
    ensures
        token_text(block) == glued(
            named_constructor(input_type@, fields.deep_view(), method_ident@),
        ),
{
    let initializers = struct_initializers(fields, method_ident);
    let ghost listed = named_initializers(fields.deep_view(), method_ident@);
    assert(texts(initializers@) =~= glued_each(listed));
    let mut block = Tokens::new();
    let done = Ghost(Seq::empty());
    let done = emit(&mut block, input_type, done);
    let done = emit(&mut block, "{", done);
    let done = emit_separated(&mut block, &initializers, ",", done, Ghost(listed));
    let done = emit(&mut block, "}", done);
    assert(done@ =~= named_constructor(input_type@, fields.deep_view(), method_ident@));
    block
}

} // verus!
