//! Laws of the grammar: every parser that finds something leaves less text
//! than it was given, so a program is read line by line until no line is
//! left to read.

use crate::assembler::parser_directive::{spec_directive_all, spec_directive_declaration};
use crate::assembler::parser_instruction::{
    spec_instruction, spec_instruction_all, spec_instruction_one, spec_instruction_three,
    spec_instruction_two, spec_instruction_zero, spec_operands, spec_optional,
    spec_register_or_integer, InstructionModel,
};
use crate::assembler::parser_label::{spec_label_declaration, spec_label_usage};
use crate::assembler::parser_op::spec_opcode;
use crate::assembler::parser_operand::{
    spec_integer_operand, spec_operand, spec_string_operand,
};
use crate::assembler::parser_program::{spec_lines, spec_program};
use crate::assembler::parser_reg::spec_register;
use crate::assembler::text::{
    in_class, lead, lemma_lead_until_bound, skip_class, tagged, trail, trim, until, word,
    CharClass,
};
use vstd::prelude::*;

verus! {

/// `lead` counts no more characters than the text has.
pub proof fn lemma_lead_bound(s: Seq<char>, k: CharClass)
    ensures
        lead(s, k) <= s.len(),
    decreases s.len(),
{
    if s.len() > 0 && in_class(s[0], k) {
        lemma_lead_bound(s.drop_first(), k);
    }
}

/// `trail` counts no more characters than the text has.
pub proof fn lemma_trail_bound(s: Seq<char>, k: CharClass)
    ensures
        trail(s, k) <= s.len(),
    decreases s.len(),
{
    if s.len() > 0 && in_class(s.last(), k) {
        lemma_trail_bound(s.drop_last(), k);
    }
}

/// Skipping and trimming make a text no longer; a word, a tag and a search
/// that succeed leave less than they were given.
pub proof fn lemma_text_shrinks(s: Seq<char>, k: CharClass, c: char)
    ensures
        skip_class(s, k).len() <= s.len(),
        trim(s).len() <= s.len(),
        word(s, k) matches Some(p) ==> p.1.len() < s.len(),
        tagged(s, c) matches Some(rest) ==> rest.len() < s.len(),
        until(s, c) matches Some(p) ==> 1 <= p.1.len() <= s.len(),
{
    lemma_lead_bound(s, k);
    lemma_lead_bound(s, CharClass::White);
    lemma_trail_bound(skip_class(s, CharClass::White), CharClass::White);
    lemma_lead_until_bound(s, c);
}

/// A token that is found leaves less text than it was given.
pub proof fn lemma_tokens_consume(s: Seq<char>)
    ensures
        spec_register(s) matches Some(p) ==> p.1.len() < s.len(),
        spec_opcode(s) matches Some(p) ==> p.1.len() < s.len(),
        spec_label_declaration(s) matches Some(p) ==> p.1.len() < s.len(),
        spec_label_usage(s) matches Some(p) ==> p.1.len() < s.len(),
        spec_integer_operand(s) matches Some(p) ==> p.1.len() < s.len(),
        spec_string_operand(s) matches Some(p) ==> p.1.len() < s.len(),
        spec_directive_declaration(s) matches Some(p) ==> p.1.len() < s.len(),
        spec_operand(s) matches Some(p) ==> p.1.len() < s.len(),
        spec_register_or_integer(s) matches Some(p) ==> p.1.len() < s.len(),
{
    assert(spec_register(s) matches Some(p) ==> p.1.len() < s.len()) by {
        lemma_text_shrinks(s, CharClass::Digit, '$');
        if let Some(s1) = tagged(s, '$') {
            lemma_text_shrinks(s1, CharClass::Digit, '$');
            if let Some((_, s2)) = word(s1, CharClass::Digit) {
                lemma_text_shrinks(s2, CharClass::MultiSpace, '$');
            }
        }
    }
    assert(spec_opcode(s) matches Some(p) ==> p.1.len() < s.len()) by {
        lemma_text_shrinks(s, CharClass::Alpha, ' ');
        if let Some((_, s1)) = word(s, CharClass::Alpha) {
            lemma_text_shrinks(s1, CharClass::Space, ' ');
        }
    }
    assert(spec_label_declaration(s) matches Some(p) ==> p.1.len() < s.len()) by {
        lemma_text_shrinks(s, CharClass::Space, ':');
        let s0 = skip_class(s, CharClass::Space);
        lemma_text_shrinks(s0, CharClass::Alpha, ':');
        if let Some((_, s1)) = word(s0, CharClass::Alpha) {
            lemma_text_shrinks(s1, CharClass::Space, ':');
            let s2 = skip_class(s1, CharClass::Space);
            lemma_text_shrinks(s2, CharClass::Space, ':');
            if let Some(s3) = tagged(s2, ':') {
                lemma_text_shrinks(s3, CharClass::Space, ':');
            }
        }
    }
    assert(spec_label_usage(s) matches Some(p) ==> p.1.len() < s.len()) by {
        lemma_text_shrinks(s, CharClass::Space, '@');
        let s0 = skip_class(s, CharClass::Space);
        lemma_text_shrinks(s0, CharClass::Space, '@');
        if let Some(s1) = tagged(s0, '@') {
            lemma_text_shrinks(s1, CharClass::Space, '@');
            let s2 = skip_class(s1, CharClass::Space);
            lemma_text_shrinks(s2, CharClass::Alpha, '@');
            if let Some((_, s3)) = word(s2, CharClass::Alpha) {
                lemma_text_shrinks(s3, CharClass::Space, '@');
            }
        }
    }
    assert(spec_integer_operand(s) matches Some(p) ==> p.1.len() < s.len()) by {
        lemma_text_shrinks(s, CharClass::Space, '#');
        lemma_text_shrinks(trim(s), CharClass::Space, '#');
        if let Some(s1) = tagged(trim(s), '#') {
            lemma_text_shrinks(s1, CharClass::Digit, '#');
            if let Some((_, s2)) = word(s1, CharClass::Digit) {
                lemma_text_shrinks(s2, CharClass::MultiSpace, '#');
            }
        }
    }
    assert(spec_string_operand(s) matches Some(p) ==> p.1.len() < s.len()) by {
        lemma_text_shrinks(s, CharClass::Space, '\'');
        lemma_text_shrinks(trim(s), CharClass::Space, '\'');
        if let Some(s1) = tagged(trim(s), '\'') {
            lemma_text_shrinks(s1, CharClass::Space, '\'');
        }
    }
    assert(spec_directive_declaration(s) matches Some(p) ==> p.1.len() < s.len()) by {
        lemma_text_shrinks(s, CharClass::Space, '.');
        if let Some(s1) = tagged(s, '.') {
            lemma_text_shrinks(s1, CharClass::Alpha, '.');
            if let Some((_, s2)) = word(s1, CharClass::Alpha) {
                lemma_text_shrinks(s2, CharClass::Space, '.');
            }
        }
    }
}

/// A part of a line that may be missing leaves no more text than it was
/// given, and neither do the operands of a line.
pub proof fn lemma_operands_shrink(s: Seq<char>)
    ensures
        spec_operands(s).3.len() <= s.len(),
{
    let s1 = skip_class(s, CharClass::Space);
    lemma_text_shrinks(s, CharClass::Space, ' ');
    lemma_tokens_consume(s1);
    let first = spec_optional(spec_operand(s1), s1);
    let s2 = skip_class(first.1, CharClass::Space);
    lemma_text_shrinks(first.1, CharClass::Space, ' ');
    lemma_tokens_consume(s2);
    let second = spec_optional(spec_operand(s2), s2);
    let s3 = skip_class(second.1, CharClass::Space);
    lemma_text_shrinks(second.1, CharClass::Space, ' ');
    lemma_tokens_consume(s3);
    let third = spec_optional(spec_operand(s3), s3);
    lemma_text_shrinks(third.1, CharClass::Space, ' ');
}

/// A line that is found leaves less text than it was given, whatever its
/// shape.
pub proof fn law_lines_consume(s: Seq<char>)
    ensures
        spec_directive_all(s) matches Some(p) ==> p.1.len() < s.len(),
        spec_instruction_all(s) matches Some(p) ==> p.1.len() < s.len(),
        spec_instruction_three(s) matches Some(p) ==> p.1.len() < s.len(),
        spec_instruction_two(s) matches Some(p) ==> p.1.len() < s.len(),
        spec_instruction_one(s) matches Some(p) ==> p.1.len() < s.len(),
        spec_instruction_zero(s) matches Some(p) ==> p.1.len() < s.len(),
        spec_instruction(s) matches Some(p) ==> p.1.len() < s.len(),
{
    lemma_text_shrinks(s, CharClass::MultiSpace, ' ');
    let t = trim(s);
    assert(spec_directive_all(s) matches Some(p) ==> p.1.len() < s.len()) by {
        let s1 = skip_class(t, CharClass::Space);
        lemma_text_shrinks(t, CharClass::Space, ' ');
        lemma_tokens_consume(s1);
        let label = spec_optional(spec_label_declaration(s1), s1);
        let s2 = skip_class(label.1, CharClass::Space);
        lemma_text_shrinks(label.1, CharClass::Space, ' ');
        lemma_tokens_consume(s2);
        if let Some((_, s3)) = spec_directive_declaration(s2) {
            lemma_operands_shrink(s3);
        }
    }
    assert(spec_instruction_all(s) matches Some(p) ==> p.1.len() < s.len()) by {
        let s1 = skip_class(s, CharClass::MultiSpace);
        lemma_tokens_consume(s1);
        let label = spec_optional(spec_label_declaration(s1), s1);
        let s2 = skip_class(label.1, CharClass::Space);
        lemma_text_shrinks(label.1, CharClass::Space, ' ');
        lemma_tokens_consume(s2);
        if let Some((_, s3)) = spec_opcode(s2) {
            lemma_operands_shrink(s3);
        }
    }
    lemma_tokens_consume(t);
    if let Some((_, s1)) = spec_opcode(t) {
        lemma_text_shrinks(s1, CharClass::MultiSpace, ' ');
        let a1 = skip_class(s1, CharClass::MultiSpace);
        lemma_tokens_consume(a1);
        if let Some((_, s2)) = spec_register_or_integer(a1) {
            lemma_text_shrinks(s2, CharClass::MultiSpace, ' ');
        }
        if let Some((_, s2)) = spec_register(a1) {
            lemma_text_shrinks(s2, CharClass::MultiSpace, ' ');
            let a2 = skip_class(s2, CharClass::MultiSpace);
            lemma_tokens_consume(a2);
            if let Some((_, s3)) = spec_integer_operand(a2) {
                lemma_text_shrinks(s3, CharClass::MultiSpace, ' ');
                let a3 = skip_class(s3, CharClass::MultiSpace);
                lemma_tokens_consume(a3);
                if let Some((_, s4)) = spec_integer_operand(a3) {
                    lemma_text_shrinks(s4, CharClass::MultiSpace, ' ');
                }
            }
        }
    }
}

/// A program is its first line and the lines of the text that the first
/// line leaves: the lines are read until the text that is left starts with
/// no line.
pub proof fn law_program_is_read_line_by_line(s: Seq<char>)
    ensures
        match spec_instruction(s) {
            Some((line, rest)) => spec_lines(s) == (
                seq![line] + spec_lines(rest).0,
                spec_lines(rest).1,
            ) && spec_program(s) == Some(spec_lines(s)),
            None => spec_lines(s) == (Seq::<InstructionModel>::empty(), s) && spec_program(s)
                is None,
        },
        spec_instruction(spec_lines(s).1) is None,
    decreases s.len(),
{
    law_lines_consume(s);
    if let Some((line, rest)) = spec_instruction(s) {
        law_program_is_read_line_by_line(rest);
    }
}

/// Each parser of a token gives the token that it is named after, and an
/// integer that is read is not negative.
pub proof fn law_tokens_have_their_kind(s: Seq<char>)
    ensures
        spec_register(s) matches Some(p) ==> p.0 is Reg,
        spec_opcode(s) matches Some(p) ==> p.0 is Op,
        spec_label_declaration(s) matches Some(p) ==> p.0 is LabelDeclaration,
        spec_label_usage(s) matches Some(p) ==> p.0 is LabelUsage,
        spec_integer_operand(s) matches Some(p) ==> p.0 is IntegerOperand && (
        p.0->IntegerOperand_i) >= 0,
        spec_string_operand(s) matches Some(p) ==> p.0 is String,
        spec_directive_declaration(s) matches Some(p) ==> p.0 is Directive,
        spec_operand(s) matches Some(p) ==> (p.0 is IntegerOperand || p.0 is LabelUsage || p.0 is Reg
            || p.0 is String),
{
}

/// A line has an opcode or a directive, never both, and its label, where
/// it has one, is a label declaration.
pub proof fn law_line_shape(s: Seq<char>)
    ensures
        spec_instruction(s) matches Some(p) ==> (p.0.has_opcode() != (p.0.directive_name()
            is Some)) && (p.0.opcode is Some) == p.0.has_opcode() && (p.0.directive is Some) == (
        p.0.directive_name() is Some) && (p.0.label is Some) == (p.0.label_name() is Some),
{
    law_tokens_have_their_kind(s);
    let t = trim(s);
    let s1 = skip_class(t, CharClass::Space);
    law_tokens_have_their_kind(s1);
    let label = spec_optional(spec_label_declaration(s1), s1);
    law_tokens_have_their_kind(skip_class(label.1, CharClass::Space));
    let m1 = skip_class(s, CharClass::MultiSpace);
    law_tokens_have_their_kind(m1);
    let mlabel = spec_optional(spec_label_declaration(m1), m1);
    law_tokens_have_their_kind(skip_class(mlabel.1, CharClass::Space));
    law_tokens_have_their_kind(t);
}

} // verus!
