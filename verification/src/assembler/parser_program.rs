//! Programs: one line after another, for as long as lines can be read.

use crate::assembler::parser_instruction::{
    instruction_in, spec_instruction, AssemblerInstruction, InstructionModel,
};
use crate::assembler::text::{finish, found, produced, whole, Span};
use crate::assembler::ParseError;
use crate::instruction::chars_of;
use vstd::prelude::*;

verus! {

/// A parsed program: its lines in the order of the source.
#[derive(Debug, PartialEq)]
pub struct Program {
    pub instructions: Vec<AssemblerInstruction>,
}

/// Lines as contracts speak of them.
pub open spec fn lines_view(lines: Seq<AssemblerInstruction>) -> Seq<InstructionModel> {
    Seq::new(lines.len(), |i: int| lines[i]@)
}

impl View for Program {
    type V = Seq<InstructionModel>;

    open spec fn view(&self) -> Seq<InstructionModel> {
        lines_view(self.instructions@)
    }
}

/// The lines at the start of `s`, read one after another until the text
/// that is left starts with no line, and that text.
pub open spec fn spec_lines(s: Seq<char>) -> (Seq<InstructionModel>, Seq<char>)
    decreases s.len(),
{
    match spec_instruction(s) {
        Some((line, rest)) => if rest.len() < s.len() {
            (seq![line] + spec_lines(rest).0, spec_lines(rest).1)
        } else {
            (Seq::empty(), s)
        },
        None => (Seq::empty(), s),
    }
}

/// A program: one line or more.
pub open spec fn spec_program(s: Seq<char>) -> Option<(Seq<InstructionModel>, Seq<char>)> {
    if spec_lines(s).0.len() > 0 {
        Some(spec_lines(s))
    } else {
        None
    }
}

/// A text holds no more lines than characters.
pub proof fn lemma_lines_bound(s: Seq<char>)
    ensures
        spec_lines(s).0.len() <= s.len(),
    decreases s.len(),
{
    match spec_instruction(s) {
        Some((line, rest)) => {
            if rest.len() < s.len() {
                lemma_lines_bound(rest);
            }
        },
        None => {},
    }
}

/// Reads a program at the start of the window.
pub fn program_in(text: &[char], w: Span) -> (r: Option<(Program, Span)>)
    requires
        w.wf(text@),
    ensures
        found(r, spec_program(w.of(text@)), text@, w),
{
    let mut instructions: Vec<AssemblerInstruction> = Vec::new();
    let mut rest = w;
    let mut more = true;
    assert(lines_view(instructions@) + spec_lines(rest.of(text@)).0 =~= spec_lines(
        w.of(text@),
    ).0);
    while more
        invariant
            w.wf(text@),
            rest.wf(text@),
            rest.within(w),
            instructions@.len() > 0 ==> rest.hi - rest.lo < w.hi - w.lo,
            spec_lines(w.of(text@)).0 == lines_view(instructions@) + spec_lines(
                rest.of(text@),
            ).0,
            spec_lines(w.of(text@)).1 == spec_lines(rest.of(text@)).1,
            !more ==> spec_instruction(rest.of(text@)) is None,
        decreases (rest.hi - rest.lo) * 2 + (if more { 1int } else { 0int }),
    {
        match instruction_in(text, rest) {
            Some((line, next)) => {
                proof {
                    let before = lines_view(instructions@);
                    let after = lines_view(instructions@.push(line));
                    assert(after =~= before + seq![line@]);
                    assert((before + seq![line@]) + spec_lines(next.of(text@)).0 =~= before + (
                    seq![line@] + spec_lines(next.of(text@)).0));
                }
                instructions.push(line);
                rest = next;
            },
            None => {
                more = false;
            },
        }
    }
    if instructions.len() > 0 {
        Some((Program { instructions }, rest))
    } else {
        None
    }
}

/// Reads a program at the start of the input: the text that is left and
/// the program. The input holds no program where it starts with no line.
pub fn program<'a>(input: &'a str) -> (r: Result<(&'a str, Program), ParseError>)
    ensures
        produced(r, spec_program(input@), ParseError::Program),
{
    let text = chars_of(input);
    finish(input, program_in(text.as_slice(), whole(&text)), ParseError::Program)
}

} // verus!
