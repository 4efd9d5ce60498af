//! Directive lines: `.` and a name, with a label before it and operands
//! behind it.

use crate::assembler::parser_instruction::{
    operands_in, optional, spec_operands, spec_optional, AssemblerInstruction, InstructionModel,
};
use crate::assembler::parser_label::{label_declaration_in, spec_label_declaration};
use crate::assembler::text::{
    finish, found, produced, skip, skip_class, tag_in, tagged, text_in, trim, trim_span, whole,
    word, word_in, CharClass, Span,
};
use crate::assembler::{ParseError, Token, TokenModel};
use crate::instruction::chars_of;
use vstd::prelude::*;

verus! {

/// The name of a directive: `.`, a word of letters, and the blanks and tabs
/// that follow.
pub open spec fn spec_directive_declaration(s: Seq<char>) -> Option<(TokenModel, Seq<char>)> {
    match tagged(s, '.') {
        Some(s1) => match word(s1, CharClass::Alpha) {
            Some((name, s2)) => Some(
                (TokenModel::Directive { name: name }, skip_class(s2, CharClass::Space)),
            ),
            None => None,
        },
        None => None,
    }
}

/// A directive line, read after the white space around the rest of the
/// text is removed: a label declaration that may be missing, the name of
/// the directive, and up to three operands of any kind.
pub open spec fn spec_directive_all(s: Seq<char>) -> Option<(InstructionModel, Seq<char>)> {
    let s1 = skip_class(trim(s), CharClass::Space);
    let label = spec_optional(spec_label_declaration(s1), s1);
    match spec_directive_declaration(skip_class(label.1, CharClass::Space)) {
        Some((name, s2)) => Some(
            (
                InstructionModel {
                    opcode: None,
                    directive: Some(name),
                    label: label.0,
                    operand1: spec_operands(s2).0,
                    operand2: spec_operands(s2).1,
                    operand3: spec_operands(s2).2,
                },
                spec_operands(s2).3,
            ),
        ),
        None => None,
    }
}

/// A directive line.
pub open spec fn spec_directive(s: Seq<char>) -> Option<(InstructionModel, Seq<char>)> {
    spec_directive_all(s)
}

/// Reads the name of a directive at the start of the window.
pub fn directive_declaration_in(text: &[char], w: Span) -> (r: Option<(Token, Span)>)
    requires
        w.wf(text@),
    ensures
        found(r, spec_directive_declaration(w.of(text@)), text@, w),
{
    let s1 = match tag_in(text, w, '.') {
        Some(s1) => s1,
        None => {
            return None;
        },
    };
    match word_in(text, s1, CharClass::Alpha) {
        Some((name, s2)) => Some(
            (Token::Directive { name: text_in(text, name) }, skip(text, s2, CharClass::Space)),
        ),
        None => None,
    }
}

/// Reads a directive line at the start of the window.
pub fn directive_all_in(text: &[char], w: Span) -> (r: Option<(AssemblerInstruction, Span)>)
    requires
        w.wf(text@),
    ensures
        found(r, spec_directive_all(w.of(text@)), text@, w),
{
    let s1 = skip(text, trim_span(text, w), CharClass::Space);
    let (label, r1) = optional(label_declaration_in(text, s1), s1);
    match directive_declaration_in(text, skip(text, r1, CharClass::Space)) {
        Some((name, s2)) => {
            let (operand1, operand2, operand3, rest) = operands_in(text, s2);
            Some(
                (
                    AssemblerInstruction {
                        opcode: None,
                        directive: Some(name),
                        label: label,
                        operand1: operand1,
                        operand2: operand2,
                        operand3: operand3,
                    },
                    rest,
                ),
            )
        },
        None => None,
    }
}

/// Reads a directive line at the start of the window.
pub fn directive_in(text: &[char], w: Span) -> (r: Option<(AssemblerInstruction, Span)>)
    requires
        w.wf(text@),
    ensures
        found(r, spec_directive(w.of(text@)), text@, w),
{
    directive_all_in(text, w)
}

/// Reads the name of a directive at the start of the input: the text that
/// is left and the token.
pub fn directive_declaration<'a>(input: &'a str) -> (r: Result<(&'a str, Token), ParseError>)
    ensures
        produced(r, spec_directive_declaration(input@), ParseError::Directive),
{
    let text = chars_of(input);
    finish(input, directive_declaration_in(text.as_slice(), whole(&text)), ParseError::Directive)
}

/// Reads a directive line at the start of the input: the text that is left
/// and the line.
pub fn directive_all<'a>(input: &'a str) -> (r: Result<
    (&'a str, AssemblerInstruction),
    ParseError,
>)
    ensures
        produced(r, spec_directive_all(input@), ParseError::Directive),
{
    let text = chars_of(input);
    finish(input, directive_all_in(text.as_slice(), whole(&text)), ParseError::Directive)
}

/// Reads a directive line at the start of the input: the text that is left
/// and the line.
pub fn directive<'a>(input: &'a str) -> (r: Result<(&'a str, AssemblerInstruction), ParseError>)
    ensures
        produced(r, spec_directive(input@), ParseError::Directive),
{
    directive_all(input)
}

} // verus!
