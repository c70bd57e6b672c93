//! `quote::Tokens` as the verifier sees it.
//!
//! `quote` keeps the tokens of a fragment as one string, in which neighbouring
//! tokens are parted by a single space. Nothing in this module is proved: it
//! declares the type, names the text that a value of it holds, and states of
//! the three operations that the crate uses what `quote` does in them.

use quote::Tokens;
use vstd::prelude::*;

verus! {

/// `quote::Tokens`, a buffer of token text. Verus sees nothing inside it.
#[verifier::external_type_specification]
#[verifier::external_body]
pub struct ExTokens(quote::Tokens);

/// The text that a `quote::Tokens` holds.
pub uninterp spec fn token_text(tokens: Tokens) -> Seq<char>;

/// The text after `token` has been appended to `text`: a single space parts
/// the two unless one of them is empty.
pub open spec fn joined(text: Seq<char>, token: Seq<char>) -> Seq<char> {
    if text.len() > 0 && token.len() > 0 {
        text + seq![' '] + token
    } else {
        text + token
    }
}

/// `quote::Tokens::new`: the new buffer holds no text.
pub assume_specification[ Tokens::new ]() -> (tokens: Tokens)
    ensures
        token_text(tokens) == Seq::<char>::empty(),
;

/// `quote::Tokens::as_str`: the text that the buffer holds.
pub assume_specification[ Tokens::as_str ](tokens: &Tokens) -> (text: &str)
    ensures
        text@ == token_text(*tokens),
;

/// `quote::Tokens::append`: pushes a space if both the buffer and the token
/// are non-empty, then pushes the token.
#[verifier::external_body]
pub(crate) fn append(tokens: &mut Tokens, token: &str)
    ensures
        token_text(*final(tokens)) == joined(token_text(*old(tokens)), token@),
{
    tokens.append(token)
}

} // verus!
