//! Registers: `$` and a decimal number that fits a byte.

use crate::assembler::text::{
    decimal, finish, found, number_in, produced, skip, skip_class, tag_in, tagged, whole, word,
    word_in, CharClass, Span,
};
use crate::assembler::{ParseError, Token, TokenModel};
use crate::instruction::chars_of;
use vstd::prelude::*;

verus! {

/// A register: `$`, one or more digits that spell a number up to 255, and
/// the blanks, tabs and line ends that follow.
pub open spec fn spec_register(s: Seq<char>) -> Option<(TokenModel, Seq<char>)> {
    match tagged(s, '$') {
        Some(s1) => match word(s1, CharClass::Digit) {
            Some((digits, s2)) => if decimal(digits) <= 255 {
                Some(
                    (
                        TokenModel::Reg { reg: decimal(digits) as u8 },
                        skip_class(s2, CharClass::MultiSpace),
                    ),
                )
            } else {
                None
            },
            None => None,
        },
        None => None,
    }
}

/// Reads a register at the start of the window.
pub fn register_in(text: &[char], w: Span) -> (r: Option<(Token, Span)>)
    requires
        w.wf(text@),
    ensures
        found(r, spec_register(w.of(text@)), text@, w),
{
    let s1 = match tag_in(text, w, '$') {
        Some(s1) => s1,
        None => {
            return None;
        },
    };
    let (digits, s2) = match word_in(text, s1, CharClass::Digit) {
        Some(p) => p,
        None => {
            return None;
        },
    };
    match number_in(text, digits, 255) {
        Some(n) => Some((Token::Reg { reg: n as u8 }, skip(text, s2, CharClass::MultiSpace))),
        None => None,
    }
}

/// Reads a register at the start of the input: the text that is left and
/// the token.
pub fn register<'a>(input: &'a str) -> (r: Result<(&'a str, Token), ParseError>)
    ensures
        produced(r, spec_register(input@), ParseError::Register),
{
    let text = chars_of(input);
    finish(input, register_in(text.as_slice(), whole(&text)), ParseError::Register)
}

} // verus!
