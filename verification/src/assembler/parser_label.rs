//! Labels: where one is declared, and where one is used as an operand.

use crate::assembler::text::{
    finish, found, produced, skip, skip_class, tag_in, tagged, text_in, whole, word, word_in,
    CharClass, Span,
};
use crate::assembler::{ParseError, Token, TokenModel};
use crate::instruction::chars_of;
use vstd::prelude::*;

verus! {

/// The declaration of a label: a word of letters and a colon, with blanks
/// and tabs allowed before the word, before the colon and after it.
pub open spec fn spec_label_declaration(s: Seq<char>) -> Option<(TokenModel, Seq<char>)> {
    match word(skip_class(s, CharClass::Space), CharClass::Alpha) {
        Some((name, s1)) => match tagged(skip_class(s1, CharClass::Space), ':') {
            Some(s2) => Some(
                (TokenModel::LabelDeclaration { name: name }, skip_class(s2, CharClass::Space)),
            ),
            None => None,
        },
        None => None,
    }
}

/// The use of a label: `@` and a word of letters, with blanks and tabs
/// allowed before the `@`, before the word and after it.
pub open spec fn spec_label_usage(s: Seq<char>) -> Option<(TokenModel, Seq<char>)> {
    match tagged(skip_class(s, CharClass::Space), '@') {
        Some(s1) => match word(skip_class(s1, CharClass::Space), CharClass::Alpha) {
            Some((name, s2)) => Some(
                (TokenModel::LabelUsage { name: name }, skip_class(s2, CharClass::Space)),
            ),
            None => None,
        },
        None => None,
    }
}

/// Reads the declaration of a label at the start of the window.
pub fn label_declaration_in(text: &[char], w: Span) -> (r: Option<(Token, Span)>)
    requires
        w.wf(text@),
    ensures
        found(r, spec_label_declaration(w.of(text@)), text@, w),
{
    let (name, s1) = match word_in(text, skip(text, w, CharClass::Space), CharClass::Alpha) {
        Some(p) => p,
        None => {
            return None;
        },
    };
    match tag_in(text, skip(text, s1, CharClass::Space), ':') {
        Some(s2) => Some(
            (
                Token::LabelDeclaration { name: text_in(text, name) },
                skip(text, s2, CharClass::Space),
            ),
        ),
        None => None,
    }
}

/// Reads the use of a label at the start of the window.
pub fn label_usage_in(text: &[char], w: Span) -> (r: Option<(Token, Span)>)
    requires
        w.wf(text@),
    ensures
        found(r, spec_label_usage(w.of(text@)), text@, w),
{
    let s1 = match tag_in(text, skip(text, w, CharClass::Space), '@') {
        Some(s1) => s1,
        None => {
            return None;
        },
    };
    match word_in(text, skip(text, s1, CharClass::Space), CharClass::Alpha) {
        Some((name, s2)) => Some(
            (Token::LabelUsage { name: text_in(text, name) }, skip(text, s2, CharClass::Space)),
        ),
        None => None,
    }
}

/// Reads the declaration of a label at the start of the input: the text
/// that is left and the token.
pub fn label_declaration<'a>(input: &'a str) -> (r: Result<(&'a str, Token), ParseError>)
    ensures
        produced(r, spec_label_declaration(input@), ParseError::LabelDeclaration),
{
    let text = chars_of(input);
    finish(
        input,
        label_declaration_in(text.as_slice(), whole(&text)),
        ParseError::LabelDeclaration,
    )
}

/// Reads the use of a label at the start of the input: the text that is
/// left and the token.
pub fn label_usage<'a>(input: &'a str) -> (r: Result<(&'a str, Token), ParseError>)
    ensures
        produced(r, spec_label_usage(input@), ParseError::LabelUsage),
{
    let text = chars_of(input);
    finish(input, label_usage_in(text.as_slice(), whole(&text)), ParseError::LabelUsage)
}

} // verus!
