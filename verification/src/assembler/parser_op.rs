//! Mnemonics: a word of letters, looked up in the table of opcodes.

use crate::assembler::text::{
    finish, found, produced, skip, skip_class, whole, word, word_in, CharClass, Span,
};
use crate::assembler::{ParseError, Token, TokenModel};
use crate::instruction::{chars_of, Opcode};
use vstd::prelude::*;
use vstd::slice::slice_subrange;

verus! {

/// A mnemonic: one or more letters, and the blanks and tabs that follow. A
/// word that names no instruction stands for `IGL`.
pub open spec fn spec_opcode(s: Seq<char>) -> Option<(TokenModel, Seq<char>)> {
    match word(s, CharClass::Alpha) {
        Some((name, s1)) => Some(
            (TokenModel::Op { code: Opcode::of_name(name) }, skip_class(s1, CharClass::Space)),
        ),
        None => None,
    }
}

/// Reads a mnemonic at the start of the window.
pub fn opcode_in(text: &[char], w: Span) -> (r: Option<(Token, Span)>)
    requires
        w.wf(text@),
    ensures
        found(r, spec_opcode(w.of(text@)), text@, w),
{
    match word_in(text, w, CharClass::Alpha) {
        Some((name, s1)) => {
            let code = Opcode::from_chars(slice_subrange(text, name.lo, name.hi));
            Some((Token::Op { code }, skip(text, s1, CharClass::Space)))
        },
        None => None,
    }
}

/// Reads a mnemonic at the start of the input: the text that is left and
/// the token.
pub fn opcode<'a>(input: &'a str) -> (r: Result<(&'a str, Token), ParseError>)
    ensures
        produced(r, spec_opcode(input@), ParseError::Opcode),
{
    let text = chars_of(input);
    finish(input, opcode_in(text.as_slice(), whole(&text)), ParseError::Opcode)
}

} // verus!
