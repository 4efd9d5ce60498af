//! Operands: integers, quoted strings, and the choice among integers,
//! uses of labels, registers and strings.

use crate::assembler::parser_label::{label_usage_in, spec_label_usage};
use crate::assembler::parser_reg::{register_in, spec_register};
use crate::assembler::text::{
    decimal, finish, found, number_in, produced, skip, skip_class, tag_in, tagged, text_in, trim,
    trim_span, until, until_in, whole, word, word_in, CharClass, Span,
};
use crate::assembler::{ParseError, Token, TokenModel};
use crate::instruction::chars_of;
use vstd::prelude::*;

verus! {

/// The largest number that an integer operand can spell.
pub const INTEGER_MAX: u32 = 0x7fff_ffff;

/// An integer operand: `#` and one or more digits that spell a number up to
/// `INTEGER_MAX`, with the white space around the rest of the text removed
/// first, and the blanks, tabs and line ends behind the digits.
pub open spec fn spec_integer_operand(s: Seq<char>) -> Option<(TokenModel, Seq<char>)> {
    match tagged(trim(s), '#') {
        Some(s1) => match word(s1, CharClass::Digit) {
            Some((digits, s2)) => if decimal(digits) <= INTEGER_MAX {
                Some(
                    (
                        TokenModel::IntegerOperand { i: decimal(digits) as i32 },
                        skip_class(s2, CharClass::MultiSpace),
                    ),
                )
            } else {
                None
            },
            None => None,
        },
        None => None,
    }
}

/// A string operand: a text between two single quotes, which holds no
/// quote itself, with the white space around the rest of the text removed
/// first.
pub open spec fn spec_string_operand(s: Seq<char>) -> Option<(TokenModel, Seq<char>)> {
    match tagged(trim(s), '\'') {
        Some(s1) => match until(s1, '\'') {
            Some((content, s2)) => Some((TokenModel::String { name: content }, s2.skip(1))),
            None => None,
        },
        None => None,
    }
}

/// An operand: an integer, else the use of a label, else a register, else
/// a string.
pub open spec fn spec_operand(s: Seq<char>) -> Option<(TokenModel, Seq<char>)> {
    if spec_integer_operand(s) is Some {
        spec_integer_operand(s)
    } else if spec_label_usage(s) is Some {
        spec_label_usage(s)
    } else if spec_register(s) is Some {
        spec_register(s)
    } else {
        spec_string_operand(s)
    }
}

/// Reads an integer operand at the start of the window.
pub fn integer_operand_in(text: &[char], w: Span) -> (r: Option<(Token, Span)>)
    requires
        w.wf(text@),
    ensures
        found(r, spec_integer_operand(w.of(text@)), text@, w),
{
    let s1 = match tag_in(text, trim_span(text, w), '#') {
        Some(s1) => s1,
        None => {
            return None;
        },
    };
    let (digits, s2) = match word_in(text, s1, CharClass::Digit) {
        Some(p) => p,
        None => {
            return None;
        },
    };
    match number_in(text, digits, INTEGER_MAX) {
        Some(n) => Some(
            (Token::IntegerOperand { i: n as i32 }, skip(text, s2, CharClass::MultiSpace)),
        ),
        None => None,
    }
}

/// Reads a string operand at the start of the window.
pub fn string_operand_in(text: &[char], w: Span) -> (r: Option<(Token, Span)>)
    requires
        w.wf(text@),
    ensures
        found(r, spec_string_operand(w.of(text@)), text@, w),
{
    let s1 = match tag_in(text, trim_span(text, w), '\'') {
        Some(s1) => s1,
        None => {
            return None;
        },
    };
    match until_in(text, s1, '\'') {
        Some((content, s2)) => {
            let rest = Span { lo: s2.lo + 1, hi: s2.hi };
            assert(rest.of(text@) =~= s2.of(text@).skip(1));
            Some((Token::String { name: text_in(text, content) }, rest))
        },
        None => None,
    }
}

/// Reads an operand at the start of the window.
pub fn operand_in(text: &[char], w: Span) -> (r: Option<(Token, Span)>)
    requires
        w.wf(text@),
    ensures
        found(r, spec_operand(w.of(text@)), text@, w),
{
    let integer = integer_operand_in(text, w);
    if integer.is_some() {
        return integer;
    }
    let label = label_usage_in(text, w);
    if label.is_some() {
        return label;
    }
    let register = register_in(text, w);
    if register.is_some() {
        return register;
    }
    string_operand_in(text, w)
}

/// Reads an integer operand at the start of the input: the text that is
/// left and the token.
pub fn integer_operand<'a>(input: &'a str) -> (r: Result<(&'a str, Token), ParseError>)
    ensures
        produced(r, spec_integer_operand(input@), ParseError::IntegerOperand),
{
    let text = chars_of(input);
    finish(input, integer_operand_in(text.as_slice(), whole(&text)), ParseError::IntegerOperand)
}

/// Reads a string operand at the start of the input: the text that is left
/// and the token.
pub fn string_operand<'a>(input: &'a str) -> (r: Result<(&'a str, Token), ParseError>)
    ensures
        produced(r, spec_string_operand(input@), ParseError::StringOperand),
{
    let text = chars_of(input);
    finish(input, string_operand_in(text.as_slice(), whole(&text)), ParseError::StringOperand)
}

/// Reads an operand at the start of the input: the text that is left and
/// the token.
pub fn operand<'a>(input: &'a str) -> (r: Result<(&'a str, Token), ParseError>)
    ensures
        produced(r, spec_operand(input@), ParseError::Operand),
{
    let text = chars_of(input);
    finish(input, operand_in(text.as_slice(), whole(&text)), ParseError::Operand)
}

} // verus!
