//! Token text: what text a sequence of tokens makes, and the steps by which
//! the crate writes fragments into a `quote::Tokens`.

use crate::tokens::{append, joined, token_text};
use quote::Tokens;
use vstd::prelude::*;

verus! {

/// The text after each of `tokens` has been appended to `text` in turn.
pub open spec fn extended(text: Seq<char>, tokens: Seq<Seq<char>>) -> Seq<char>
    decreases tokens.len(),
{
    if tokens.len() == 0 {
        text
    } else {
        joined(extended(text, tokens.drop_last()), tokens.last())
    }
}

/// The text of a fragment made of `tokens`.
pub open spec fn glued(tokens: Seq<Seq<char>>) -> Seq<char> {
    extended(Seq::empty(), tokens)
}

/// The tokens of a list: the tokens of each item in order, with `separator`
/// between neighbouring items.
pub open spec fn separated(items: Seq<Seq<Seq<char>>>, separator: Seq<char>) -> Seq<Seq<char>>
    decreases items.len(),
{
    if items.len() == 0 {
        Seq::empty()
    } else if items.len() == 1 {
        items[0]
    } else {
        separated(items.drop_last(), separator).push(separator) + items.last()
    }
}

/// The texts of a sequence of token buffers.
pub open spec fn texts(buffers: Seq<Tokens>) -> Seq<Seq<char>> {
    Seq::new(buffers.len(), |i: int| token_text(buffers[i]))
}

/// The text of each item of a list, the item taken as a fragment.
pub open spec fn glued_each(items: Seq<Seq<Seq<char>>>) -> Seq<Seq<char>> {
    Seq::new(items.len(), |i: int| glued(items[i]))
}

/// Appends one token to a fragment whose tokens so far are `done`.
pub(crate) fn emit(tokens: &mut Tokens, token: &str, Ghost(done): Ghost<Seq<Seq<char>>>) -> (now:
    Ghost<Seq<Seq<char>>>)
    requires
        token_text(*old(tokens)) == glued(done),
    ensures
        now@ == done.push(token@),
        token_text(*final(tokens)) == glued(now@),
{
    append(tokens, token);
    proof {
        lemma_extended_push(Seq::empty(), done, token@);
    }
    Ghost(done.push(token@))
}

/// Appends a whole fragment, whose tokens are `parts`, to a fragment whose
/// tokens so far are `done`.
pub(crate) fn emit_fragment(
    tokens: &mut Tokens,
    fragment: &Tokens,
    Ghost(done): Ghost<Seq<Seq<char>>>,
    Ghost(parts): Ghost<Seq<Seq<char>>>,
) -> (now: Ghost<Seq<Seq<char>>>)
    requires
        token_text(*old(tokens)) == glued(done),
        token_text(*fragment) == glued(parts),
    ensures
        now@ == done + parts,
        token_text(*final(tokens)) == glued(now@),
{
    append(tokens, fragment.as_str());
    proof {
        lemma_flatten(glued(done), parts);
        lemma_extended_concat(Seq::empty(), done, parts);
    }
    Ghost(done + parts)
}

/// Appends the fragments of `items` to a fragment whose tokens so far are
/// `done`, with `separator` between neighbours. `parts` are the tokens of the
/// items.
pub(crate) fn emit_separated(
    tokens: &mut Tokens,
    items: &Vec<Tokens>,
    separator: &str,
    Ghost(done): Ghost<Seq<Seq<char>>>,
    Ghost(parts): Ghost<Seq<Seq<Seq<char>>>>,
) -> (now: Ghost<Seq<Seq<char>>>)
    requires
        token_text(*old(tokens)) == glued(done),
        texts(items@) == glued_each(parts),
    ensures
        now@ == done + separated(parts, separator@),
        token_text(*final(tokens)) == glued(now@),
{
    let ghost mut listed: Seq<Seq<char>> = Seq::empty();
    assert(items@.len() == parts.len()) by {
        assert(glued_each(parts).len() == parts.len());
    }
    let mut i: usize = 0;
    while i < items.len()
        invariant
            i <= items.len(),
            items@.len() == parts.len(),
            texts(items@) == glued_each(parts),
            listed == separated(parts.take(i as int), separator@),
            token_text(*tokens) == glued(done + listed),
        decreases items.len() - i,
    {
        let mut sofar = Ghost(done + listed);
        if i > 0 {
            sofar = emit(tokens, separator, sofar);
        }
        assert(token_text(items@[i as int]) == glued(parts[i as int])) by {
            assert(texts(items@)[i as int] == glued_each(parts)[i as int]);
        }
        let after = emit_fragment(tokens, &items[i], sofar, Ghost(parts[i as int]));
        proof {
            lemma_separated_step(parts, separator@, i as int);
            listed = separated(parts.take(i + 1), separator@);
            assert(after@ =~= done + listed);
        }
        i += 1;
    }
    assert(parts.take(i as int) =~= parts);
    Ghost(done + listed)
}

/// Appending one more token extends the text by that token.
pub proof fn lemma_extended_push(text: Seq<char>, tokens: Seq<Seq<char>>, token: Seq<char>)
    ensures
        extended(text, tokens.push(token)) == joined(extended(text, tokens), token),
{
    assert(tokens.push(token).drop_last() =~= tokens);
}

/// Appending two runs of tokens one after the other is appending their
/// concatenation.
pub proof fn lemma_extended_concat(text: Seq<char>, first: Seq<Seq<char>>, second: Seq<Seq<char>>)
    ensures
        extended(text, first + second) == extended(extended(text, first), second),
    decreases second.len(),
{
    if second.len() > 0 {
        lemma_extended_concat(text, first, second.drop_last());
        assert((first + second).drop_last() =~= first + second.drop_last());
    }
}

/// Joining is associative.
pub proof fn lemma_joined_associative(a: Seq<char>, b: Seq<char>, c: Seq<char>)
    ensures
        joined(joined(a, b), c) == joined(a, joined(b, c)),
{
}

/// Appending the text of a fragment as one token gives the same text as
/// appending the fragment's tokens one by one.
pub proof fn lemma_flatten(text: Seq<char>, tokens: Seq<Seq<char>>)
    ensures
        joined(text, glued(tokens)) == extended(text, tokens),
    decreases tokens.len(),
{
    if tokens.len() > 0 {
        lemma_flatten(text, tokens.drop_last());
        lemma_joined_associative(text, glued(tokens.drop_last()), tokens.last());
    }
}

/// A list of one more item: the separator comes before every item but the
/// first.
pub proof fn lemma_separated_step(items: Seq<Seq<Seq<char>>>, separator: Seq<char>, i: int)
    requires
        0 <= i < items.len(),
    ensures
        separated(items.take(i + 1), separator) == if i == 0 {
            items[0]
        } else {
            separated(items.take(i), separator).push(separator) + items[i]
        },
{
    assert(items.take(i + 1).drop_last() =~= items.take(i));
}

/// Where the items of a list stand if each of them has `width` tokens: the
/// `i`-th item begins at `i * (width + 1)`, and a separator stands before
/// every item but the first.
pub proof fn lemma_separated_layout(
    items: Seq<Seq<Seq<char>>>,
    separator: Seq<char>,
    width: nat,
    i: int,
)
    requires
        0 <= i < items.len(),
        forall|k: int| 0 <= k < items.len() ==> (#[trigger] items[k]).len() == width,
    ensures
        separated(items, separator).len() == items.len() * (width + 1) - 1,
        separated(items, separator).subrange(i * (width + 1), i * (width + 1) + width)
            == items[i],
        i > 0 ==> separated(items, separator)[i * (width + 1) - 1] == separator,
    decreases items.len(),
{
    let list = separated(items, separator);
    let count = items.len() as int;
    let step = width as int + 1;
    if count == 1 {
        assert(1 * step == step) by (nonlinear_arith);
        assert(0 * step == 0) by (nonlinear_arith);
        assert(list.subrange(0, width as int) =~= items[0]);
    } else {
        let earlier = items.drop_last();
        let shorter = separated(earlier, separator);
        let j = if i < count - 1 {
            i
        } else {
            i - 1
        };
        lemma_separated_layout(earlier, separator, width, j);
        assert(count * step == (count - 1) * step + step) by (nonlinear_arith);
        assert(i * step + step <= count * step) by (nonlinear_arith)
            requires
                0 <= i < count,
                step > 0,
        ;
        if i < count - 1 {
            assert(i * step + step <= (count - 1) * step) by (nonlinear_arith)
                requires
                    0 <= i < count - 1,
                    step > 0,
            ;
            assert(list.subrange(i * step, i * step + width) =~= shorter.subrange(
                i * step,
                i * step + width,
            ));
            if i > 0 {
                assert(0 <= i * step - 1) by (nonlinear_arith)
                    requires
                        i > 0,
                        step > 0,
                ;
                assert(list[i * step - 1] == shorter[i * step - 1]);
            }
        } else {
            assert(list.subrange(i * step, i * step + width) =~= items[i]);
            assert(list[i * step - 1] == separator);
        }
    }
}

} // verus!
