//! Instruction lines: the record that a line is parsed into, and the
//! shapes that a line with an opcode can have.

use crate::assembler::parser_directive::{directive_in, spec_directive};
use crate::assembler::parser_label::{label_declaration_in, spec_label_declaration};
use crate::assembler::parser_op::{opcode_in, spec_opcode};
use crate::assembler::parser_operand::{
    integer_operand_in, operand_in, spec_integer_operand, spec_operand,
};
use crate::assembler::parser_reg::{register_in, spec_register};
use crate::assembler::text::{
    finish, found, produced, skip, skip_class, trim, trim_span, whole, CharClass, Span,
};
use crate::assembler::{
    has_name, lemma_value_of_has_name, slot, value_of, ParseError, Refusal, SymbolModel,
    SymbolTable, Token, TokenModel,
};
use crate::instruction::{chars_of, Opcode};
use vstd::prelude::*;

verus! {

/// A parsed line: a label, a directive or an opcode, and up to three
/// operands. Each slot may be empty.
#[derive(Debug, PartialEq)]
pub struct AssemblerInstruction {
    pub directive: Option<Token>,
    pub label: Option<Token>,
    pub opcode: Option<Token>,
    pub operand1: Option<Token>,
    pub operand2: Option<Token>,
    pub operand3: Option<Token>,
}

/// A parsed line as contracts speak of it.
pub struct InstructionModel {
    pub directive: Option<TokenModel>,
    pub label: Option<TokenModel>,
    pub opcode: Option<TokenModel>,
    pub operand1: Option<TokenModel>,
    pub operand2: Option<TokenModel>,
    pub operand3: Option<TokenModel>,
}

impl View for AssemblerInstruction {
    type V = InstructionModel;

    open spec fn view(&self) -> InstructionModel {
        InstructionModel {
            directive: slot(self.directive),
            label: slot(self.label),
            opcode: slot(self.opcode),
            operand1: slot(self.operand1),
            operand2: slot(self.operand2),
            operand3: slot(self.operand3),
        }
    }
}

/// The two bytes of the low 16 bits of a number, high byte first.
pub open spec fn be16(v: int) -> Seq<u8> {
    seq![((v % 0x1_0000) / 0x100) as u8, ((v % 0x1_0000) % 0x100) as u8]
}

/// The bytes that an operand is encoded in: one for a register, two for an
/// integer, two for the offset of the label that is used. Other tokens, and
/// labels that the table does not hold, have no encoding.
pub open spec fn operand_bytes(t: TokenModel, symbols: Seq<SymbolModel>) -> Seq<u8> {
    match t {
        TokenModel::Reg { reg } => seq![reg],
        TokenModel::IntegerOperand { i } => be16(i as int),
        TokenModel::LabelUsage { name } => match value_of(symbols, name) {
            Some(v) => be16(v as int),
            None => Seq::empty(),
        },
        _ => Seq::empty(),
    }
}

/// The token can stand in an operand slot: it is a register, an integer, or
/// the use of a label that the table holds.
pub open spec fn operand_encodable(t: TokenModel, symbols: Seq<SymbolModel>) -> bool {
    match t {
        TokenModel::Reg { .. } => true,
        TokenModel::IntegerOperand { .. } => true,
        TokenModel::LabelUsage { name } => has_name(symbols, name),
        _ => false,
    }
}

/// What keeps an operand slot from being encoded, if anything does: a token
/// that is no operand, or the use of a label that the table does not hold.
pub open spec fn slot_defect(t: Option<TokenModel>, symbols: Seq<SymbolModel>) -> Option<Refusal> {
    match t {
        None => None,
        Some(TokenModel::Reg { .. }) => None,
        Some(TokenModel::IntegerOperand { .. }) => None,
        Some(TokenModel::LabelUsage { name }) => if has_name(symbols, name) {
            None
        } else {
            Some(Refusal::UnknownLabel)
        },
        Some(_) => Some(Refusal::BadOperand),
    }
}

/// The bytes of an operand slot; an empty slot has none.
pub open spec fn slot_bytes(t: Option<TokenModel>, symbols: Seq<SymbolModel>) -> Seq<u8> {
    match t {
        Some(t) => operand_bytes(t, symbols),
        None => Seq::empty(),
    }
}

/// The slot is empty or holds a token that can stand in it.
pub open spec fn slot_encodable(t: Option<TokenModel>, symbols: Seq<SymbolModel>) -> bool {
    match t {
        Some(t) => operand_encodable(t, symbols),
        None => true,
    }
}

/// Number of bytes that an operand slot is encoded in.
pub open spec fn slot_width(t: Option<TokenModel>) -> nat {
    match t {
        Some(TokenModel::Reg { .. }) => 1,
        Some(TokenModel::IntegerOperand { .. }) => 2,
        Some(TokenModel::LabelUsage { .. }) => 2,
        _ => 0,
    }
}

/// The four bytes of an instruction that starts with the given bytes: the
/// first four of them, with zero bytes behind them where they are fewer.
pub open spec fn padded(bytes: Seq<u8>) -> Seq<u8> {
    (bytes + Seq::new(4, |i: int| 0u8)).take(4)
}

impl InstructionModel {
    /// The name of the label that the line declares.
    pub open spec fn label_name(self) -> Option<Seq<char>> {
        match self.label {
            Some(TokenModel::LabelDeclaration { name }) => Some(name),
            _ => None,
        }
    }

    /// The name of the directive of the line.
    pub open spec fn directive_name(self) -> Option<Seq<char>> {
        match self.directive {
            Some(TokenModel::Directive { name }) => Some(name),
            _ => None,
        }
    }

    /// The line has an opcode: it produces code.
    pub open spec fn has_opcode(self) -> bool {
        self.opcode matches Some(TokenModel::Op { .. })
    }

    /// The opcode of the line.
    pub open spec fn code(self) -> Opcode {
        match self.opcode {
            Some(TokenModel::Op { code }) => code,
            _ => Opcode::IGL,
        }
    }

    /// The line can be encoded: it has an opcode, each of its operand slots
    /// is empty or holds a token that can stand in it, and its operands fit
    /// the three bytes that follow the opcode.
    pub open spec fn encodable(self, symbols: Seq<SymbolModel>) -> bool {
        &&& self.has_opcode()
        &&& slot_encodable(self.operand1, symbols)
        &&& slot_encodable(self.operand2, symbols)
        &&& slot_encodable(self.operand3, symbols)
        &&& self.operand_width() <= 3
    }

    /// What keeps a line that has an opcode from being encoded, if anything
    /// does: the defect of the first operand slot that has one, and else
    /// operands that do not fit the three bytes behind the opcode.
    pub open spec fn defect(self, symbols: Seq<SymbolModel>) -> Option<Refusal> {
        if slot_defect(self.operand1, symbols) is Some {
            slot_defect(self.operand1, symbols)
        } else if slot_defect(self.operand2, symbols) is Some {
            slot_defect(self.operand2, symbols)
        } else if slot_defect(self.operand3, symbols) is Some {
            slot_defect(self.operand3, symbols)
        } else if self.operand_width() > 3 {
            Some(Refusal::TooWide)
        } else {
            None
        }
    }

    /// Number of bytes that the operands of the line are encoded in.
    pub open spec fn operand_width(self) -> nat {
        slot_width(self.operand1) + slot_width(self.operand2) + slot_width(self.operand3)
    }

    /// The code of the opcode and, behind it, the operands in their order.
    pub open spec fn packed(self, symbols: Seq<SymbolModel>) -> Seq<u8> {
        seq![self.code().code()] + slot_bytes(self.operand1, symbols) + slot_bytes(
            self.operand2,
            symbols,
        ) + slot_bytes(self.operand3, symbols)
    }

    /// The encoding of the line, four bytes: the code of the opcode, then
    /// the operands in their order, then zero bytes. Of a line that can be
    /// encoded no operand byte is left out.
    pub open spec fn bytes(self, symbols: Seq<SymbolModel>) -> Seq<u8> {
        padded(self.packed(symbols))
    }
}

/// The operands of a line that can be encoded take as many bytes as their
/// width says, so the opcode and the operands are four bytes at most.
pub proof fn lemma_packed_length(line: InstructionModel, symbols: Seq<SymbolModel>)
    requires
        line.encodable(symbols),
    ensures
        line.packed(symbols).len() == 1 + line.operand_width(),
        line.packed(symbols).len() <= 4,
        line.packed(symbols)[0] == line.code().code(),
        line.bytes(symbols) == line.packed(symbols) + Seq::new(
            (3 - line.operand_width()) as nat,
            |i: int| 0u8,
        ),
{
    lemma_slot_length(line.operand1, symbols);
    lemma_slot_length(line.operand2, symbols);
    lemma_slot_length(line.operand3, symbols);
    assert(line.bytes(symbols) =~= line.packed(symbols) + Seq::new(
        (3 - line.operand_width()) as nat,
        |i: int| 0u8,
    ));
}

/// A line that has an opcode can be encoded exactly where it has no
/// defect.
pub proof fn lemma_defect(line: InstructionModel, symbols: Seq<SymbolModel>)
    ensures
        line.encodable(symbols) <==> line.has_opcode() && line.defect(symbols) is None,
        line.defect(symbols) != Some(Refusal::TooManyLines),
{
}

/// An operand slot that can be encoded takes as many bytes as its width
/// says.
pub proof fn lemma_slot_length(t: Option<TokenModel>, symbols: Seq<SymbolModel>)
    requires
        slot_encodable(t, symbols),
    ensures
        slot_bytes(t, symbols).len() == slot_width(t),
{
    match t {
        Some(TokenModel::LabelUsage { name }) => {
            lemma_value_of_has_name(symbols, name);
        },
        _ => {},
    }
}

/// The text in a slot that may be empty, as contracts speak of it.
pub open spec fn text_slot(t: Option<String>) -> Option<Seq<char>> {
    match t {
        Some(t) => Some(t@),
        None => None,
    }
}

/// Appends the two bytes of the low 16 bits of a number, high byte first.
fn push_be16(res: &mut Vec<u8>, low: u32)
    requires
        low < 0x1_0000,
    ensures
        final(res)@ == old(res)@ + be16(low as int),
{
    res.push((low / 0x100) as u8);
    res.push((low % 0x100) as u8);
    assert(res@ =~= old(res)@ + be16(low as int));
}

impl AssemblerInstruction {
    /// Whether the line can be encoded with the symbols of `st`.
    pub fn encodable(&self, st: &SymbolTable) -> (b: bool)
        ensures
            b == self@.encodable(st@),
    {
        match &self.opcode {
            Some(Token::Op { .. }) => {
                AssemblerInstruction::fits(&self.operand1, st) && AssemblerInstruction::fits(
                    &self.operand2,
                    st,
                ) && AssemblerInstruction::fits(&self.operand3, st) && AssemblerInstruction::width(
                    &self.operand1,
                ) + AssemblerInstruction::width(&self.operand2) + AssemblerInstruction::width(
                    &self.operand3,
                ) <= 3
            },
            _ => false,
        }
    }

    /// What keeps the line from being encoded with the symbols of `st`, if
    /// anything does.
    pub fn defect(&self, st: &SymbolTable) -> (d: Option<Refusal>)
        ensures
            d == self@.defect(st@),
    {
        let first = AssemblerInstruction::slot_defect(&self.operand1, st);
        if first.is_some() {
            return first;
        }
        let second = AssemblerInstruction::slot_defect(&self.operand2, st);
        if second.is_some() {
            return second;
        }
        let third = AssemblerInstruction::slot_defect(&self.operand3, st);
        if third.is_some() {
            return third;
        }
        if AssemblerInstruction::width(&self.operand1) + AssemblerInstruction::width(
            &self.operand2,
        ) + AssemblerInstruction::width(&self.operand3) > 3 {
            Some(Refusal::TooWide)
        } else {
            None
        }
    }

    /// What keeps an operand slot from being encoded, if anything does.
    fn slot_defect(operand: &Option<Token>, st: &SymbolTable) -> (d: Option<Refusal>)
        ensures
            d == slot_defect(slot(*operand), st@),
    {
        match operand {
            None => None,
            Some(Token::Reg { .. }) => None,
            Some(Token::IntegerOperand { .. }) => None,
            Some(Token::LabelUsage { name }) => if st.has_symbol(name) {
                None
            } else {
                Some(Refusal::UnknownLabel)
            },
            Some(_) => Some(Refusal::BadOperand),
        }
    }

    /// Number of bytes that an operand slot is encoded in.
    fn width(operand: &Option<Token>) -> (n: u8)
        ensures
            n == slot_width(slot(*operand)),
            n <= 2,
    {
        match operand {
            Some(Token::Reg { .. }) => 1,
            Some(Token::IntegerOperand { .. }) => 2,
            Some(Token::LabelUsage { .. }) => 2,
            _ => 0,
        }
    }

    /// Whether the slot is empty or holds a token that can stand in it.
    fn fits(operand: &Option<Token>, st: &SymbolTable) -> (b: bool)
        ensures
            b == slot_encodable(slot(*operand), st@),
    {
        match operand {
            Some(Token::Reg { .. }) => true,
            Some(Token::IntegerOperand { .. }) => true,
            Some(Token::LabelUsage { name }) => st.has_symbol(name),
            Some(_) => false,
            None => true,
        }
    }

    /// The encoding of the line: four bytes, of which the first is the code
    /// of the opcode; the operands follow in their order, a register in one
    /// byte, an integer and the offset of a label in two, high byte first;
    /// the bytes behind the last operand are zero.
    pub fn to_bytes(&self, st: &SymbolTable) -> (res: Vec<u8>)
        requires
            self@.encodable(st@),
        ensures
            res@ == self@.bytes(st@),
            res@.len() == 4,
            res@[0] == self@.code().code(),
            res@ == self@.packed(st@) + Seq::new(
                (3 - self@.operand_width()) as nat,
                |i: int| 0u8,
            ),
    {
        let mut res: Vec<u8> = Vec::new();
        match &self.opcode {
            Some(Token::Op { code }) => res.push(code.code()),
            _ => {},
        }
        assert(res@ =~= seq![self@.code().code()]);
        AssemblerInstruction::extract_slot(&self.operand1, &mut res, st);
        AssemblerInstruction::extract_slot(&self.operand2, &mut res, st);
        AssemblerInstruction::extract_slot(&self.operand3, &mut res, st);
        let ghost packed = res@;
        proof {
            lemma_packed_length(self@, st@);
        }
        while res.len() < 4
            invariant
                packed.len() <= res@.len() <= 4,
                res@ == packed + Seq::new((res@.len() - packed.len()) as nat, |i: int| 0u8),
            decreases 4 - res@.len(),
        {
            res.push(0);
            assert(res@ =~= packed + Seq::new((res@.len() - packed.len()) as nat, |i: int| 0u8));
        }
        res
    }

    /// Appends the encoding of an operand slot.
    fn extract_slot(operand: &Option<Token>, res: &mut Vec<u8>, st: &SymbolTable)
        requires
            slot_encodable(slot(*operand), st@),
        ensures
            final(res)@ == old(res)@ + slot_bytes(slot(*operand), st@),
    {
        match operand {
            Some(op) => AssemblerInstruction::extract_operand(op, res, st),
            None => {
                assert(res@ =~= old(res)@ + Seq::<u8>::empty());
            },
        }
    }

    /// Appends the encoding of an operand.
    fn extract_operand(t: &Token, res: &mut Vec<u8>, st: &SymbolTable)
        requires
            operand_encodable(t@, st@),
        ensures
            final(res)@ == old(res)@ + operand_bytes(t@, st@),
    {
        match t {
            Token::Reg { reg } => {
                res.push(*reg);
                assert(res@ =~= old(res)@ + seq![*reg]);
            },
            Token::IntegerOperand { i } => {
                let low = i.checked_rem_euclid(0x1_0000);
                match low {
                    Some(v) => push_be16(res, v as u32),
                    None => {},
                }
            },
            Token::LabelUsage { name } => {
                proof {
                    lemma_value_of_has_name(st@, name@);
                }
                match st.symbol_value(name.as_str()) {
                    Some(value) => push_be16(res, value % 0x1_0000),
                    None => {},
                }
            },
            _ => {},
        }
    }

    /// The name of the label that the line declares.
    pub fn label_name(&self) -> (name: Option<String>)
        ensures
            text_slot(name) == self@.label_name(),
    {
        match &self.label {
            Some(Token::LabelDeclaration { name }) => Some(name.clone()),
            _ => None,
        }
    }

    /// The name of the directive of the line.
    pub fn directive_name(&self) -> (name: Option<String>)
        ensures
            text_slot(name) == self@.directive_name(),
    {
        match &self.directive {
            Some(Token::Directive { name }) => Some(name.clone()),
            _ => None,
        }
    }
}

/// A part of a line that may be missing: where `p` found nothing, the slot
/// is empty and the text `s` is left as it was.
pub open spec fn spec_optional(p: Option<(TokenModel, Seq<char>)>, s: Seq<char>) -> (
    Option<TokenModel>,
    Seq<char>,
) {
    match p {
        Some((t, rest)) => (Some(t), rest),
        None => (None, s),
    }
}

/// The operands of a line: up to three, each after any blanks and tabs, and
/// the blanks and tabs behind the last.
pub open spec fn spec_operands(s: Seq<char>) -> (
    Option<TokenModel>,
    Option<TokenModel>,
    Option<TokenModel>,
    Seq<char>,
) {
    let s1 = skip_class(s, CharClass::Space);
    let first = spec_optional(spec_operand(s1), s1);
    let s2 = skip_class(first.1, CharClass::Space);
    let second = spec_optional(spec_operand(s2), s2);
    let s3 = skip_class(second.1, CharClass::Space);
    let third = spec_optional(spec_operand(s3), s3);
    (first.0, second.0, third.0, skip_class(third.1, CharClass::Space))
}

/// A line with an opcode and no operand, read after the white space around
/// the rest of the text is removed.
pub open spec fn spec_instruction_zero(s: Seq<char>) -> Option<(InstructionModel, Seq<char>)> {
    match spec_opcode(trim(s)) {
        Some((o, s1)) => Some(
            (
                InstructionModel {
                    opcode: Some(o),
                    operand1: None,
                    operand2: None,
                    operand3: None,
                    label: None,
                    directive: None,
                },
                skip_class(s1, CharClass::MultiSpace),
            ),
        ),
        None => None,
    }
}

/// A register, else an integer.
pub open spec fn spec_register_or_integer(s: Seq<char>) -> Option<(TokenModel, Seq<char>)> {
    if spec_register(s) is Some {
        spec_register(s)
    } else {
        spec_integer_operand(s)
    }
}

/// A line with an opcode and one operand, a register or an integer, read
/// after the white space around the rest of the text is removed.
pub open spec fn spec_instruction_one(s: Seq<char>) -> Option<(InstructionModel, Seq<char>)> {
    match spec_opcode(trim(s)) {
        Some((o, s1)) => match spec_register_or_integer(skip_class(s1, CharClass::MultiSpace)) {
            Some((operand, s2)) => Some(
                (
                    InstructionModel {
                        opcode: Some(o),
                        operand1: Some(operand),
                        operand2: None,
                        operand3: None,
                        label: None,
                        directive: None,
                    },
                    skip_class(s2, CharClass::MultiSpace),
                ),
            ),
            None => None,
        },
        None => None,
    }
}

/// A line with an opcode, a register and an integer, read after the white
/// space around the rest of the text is removed.
pub open spec fn spec_instruction_two(s: Seq<char>) -> Option<(InstructionModel, Seq<char>)> {
    match spec_opcode(trim(s)) {
        Some((o, s1)) => match spec_register(skip_class(s1, CharClass::MultiSpace)) {
            Some((r, s2)) => match spec_integer_operand(skip_class(s2, CharClass::MultiSpace)) {
                Some((i, s3)) => Some(
                    (
                        InstructionModel {
                            opcode: Some(o),
                            operand1: Some(r),
                            operand2: Some(i),
                            operand3: None,
                            label: None,
                            directive: None,
                        },
                        skip_class(s3, CharClass::MultiSpace),
                    ),
                ),
                None => None,
            },
            None => None,
        },
        None => None,
    }
}

/// A line with an opcode, a register and two integers, read after the white
/// space around the rest of the text is removed.
pub open spec fn spec_instruction_three(s: Seq<char>) -> Option<(InstructionModel, Seq<char>)> {
    match spec_opcode(trim(s)) {
        Some((o, s1)) => match spec_register(skip_class(s1, CharClass::MultiSpace)) {
            Some((r, s2)) => match spec_integer_operand(skip_class(s2, CharClass::MultiSpace)) {
                Some((i, s3)) => match spec_integer_operand(
                    skip_class(s3, CharClass::MultiSpace),
                ) {
                    Some((i2, s4)) => Some(
                        (
                            InstructionModel {
                                opcode: Some(o),
                                operand1: Some(r),
                                operand2: Some(i),
                                operand3: Some(i2),
                                label: None,
                                directive: None,
                            },
                            skip_class(s4, CharClass::MultiSpace),
                        ),
                    ),
                    None => None,
                },
                None => None,
            },
            None => None,
        },
        None => None,
    }
}

/// A line with an opcode in its general shape: blanks, tabs and line ends,
/// a label declaration that may be missing, the opcode, and up to three
/// operands of any kind.
pub open spec fn spec_instruction_all(s: Seq<char>) -> Option<(InstructionModel, Seq<char>)> {
    let s1 = skip_class(s, CharClass::MultiSpace);
    let label = spec_optional(spec_label_declaration(s1), s1);
    match spec_opcode(skip_class(label.1, CharClass::Space)) {
        Some((o, s2)) => Some(
            (
                InstructionModel {
                    opcode: Some(o),
                    label: label.0,
                    directive: None,
                    operand1: spec_operands(s2).0,
                    operand2: spec_operands(s2).1,
                    operand3: spec_operands(s2).2,
                },
                spec_operands(s2).3,
            ),
        ),
        None => None,
    }
}

/// A line: a directive line, else a line with an opcode in its general
/// shape, else one with three, two, one or no operands.
pub open spec fn spec_instruction(s: Seq<char>) -> Option<(InstructionModel, Seq<char>)> {
    if spec_directive(s) is Some {
        spec_directive(s)
    } else if spec_instruction_all(s) is Some {
        spec_instruction_all(s)
    } else if spec_instruction_three(s) is Some {
        spec_instruction_three(s)
    } else if spec_instruction_two(s) is Some {
        spec_instruction_two(s)
    } else if spec_instruction_one(s) is Some {
        spec_instruction_one(s)
    } else {
        spec_instruction_zero(s)
    }
}

/// What was found where a part of a line may be missing.
pub fn optional(p: Option<(Token, Span)>, w: Span) -> (r: (Option<Token>, Span))
    ensures
        r == match p {
            Some(q) => (Some(q.0), q.1),
            None => (None, w),
        },
{
    match p {
        Some((t, rest)) => (Some(t), rest),
        None => (None, w),
    }
}

/// Reads the operands of a line at the start of the window.
pub fn operands_in(text: &[char], w: Span) -> (r: (Option<Token>, Option<Token>, Option<Token>, Span))
    requires
        w.wf(text@),
    ensures
        slot(r.0) == spec_operands(w.of(text@)).0,
        slot(r.1) == spec_operands(w.of(text@)).1,
        slot(r.2) == spec_operands(w.of(text@)).2,
        r.3.of(text@) == spec_operands(w.of(text@)).3,
        r.3.within(w),
        r.3.wf(text@),
{
    let s1 = skip(text, w, CharClass::Space);
    let (first, r1) = optional(operand_in(text, s1), s1);
    let s2 = skip(text, r1, CharClass::Space);
    let (second, r2) = optional(operand_in(text, s2), s2);
    let s3 = skip(text, r2, CharClass::Space);
    let (third, r3) = optional(operand_in(text, s3), s3);
    (first, second, third, skip(text, r3, CharClass::Space))
}

/// Reads a line with an opcode and no operand at the start of the window.
pub fn instruction_zero_in(text: &[char], w: Span) -> (r: Option<(AssemblerInstruction, Span)>)
    requires
        w.wf(text@),
    ensures
        found(r, spec_instruction_zero(w.of(text@)), text@, w),
{
    match opcode_in(text, trim_span(text, w)) {
        Some((o, s1)) => Some(
            (
                AssemblerInstruction {
                    opcode: Some(o),
                    operand1: None,
                    operand2: None,
                    operand3: None,
                    label: None,
                    directive: None,
                },
                skip(text, s1, CharClass::MultiSpace),
            ),
        ),
        None => None,
    }
}

/// Reads a register, else an integer, at the start of the window.
fn register_or_integer_in(text: &[char], w: Span) -> (r: Option<(Token, Span)>)
    requires
        w.wf(text@),
    ensures
        found(r, spec_register_or_integer(w.of(text@)), text@, w),
{
    let register = register_in(text, w);
    if register.is_some() {
        return register;
    }
    integer_operand_in(text, w)
}

/// Reads a line with an opcode and one operand at the start of the window.
pub fn instruction_one_in(text: &[char], w: Span) -> (r: Option<(AssemblerInstruction, Span)>)
    requires
        w.wf(text@),
    ensures
        found(r, spec_instruction_one(w.of(text@)), text@, w),
{
    let (o, s1) = match opcode_in(text, trim_span(text, w)) {
        Some(p) => p,
        None => {
            return None;
        },
    };
    match register_or_integer_in(text, skip(text, s1, CharClass::MultiSpace)) {
        Some((operand, s2)) => Some(
            (
                AssemblerInstruction {
                    opcode: Some(o),
                    operand1: Some(operand),
                    operand2: None,
                    operand3: None,
                    label: None,
                    directive: None,
                },
                skip(text, s2, CharClass::MultiSpace),
            ),
        ),
        None => None,
    }
}

/// Reads a line with an opcode, a register and an integer at the start of
/// the window.
pub fn instruction_two_in(text: &[char], w: Span) -> (r: Option<(AssemblerInstruction, Span)>)
    requires
        w.wf(text@),
    ensures
        found(r, spec_instruction_two(w.of(text@)), text@, w),
{
    let (o, s1) = match opcode_in(text, trim_span(text, w)) {
        Some(p) => p,
        None => {
            return None;
        },
    };
    let (r, s2) = match register_in(text, skip(text, s1, CharClass::MultiSpace)) {
        Some(p) => p,
        None => {
            return None;
        },
    };
    match integer_operand_in(text, skip(text, s2, CharClass::MultiSpace)) {
        Some((i, s3)) => Some(
            (
                AssemblerInstruction {
                    opcode: Some(o),
                    operand1: Some(r),
                    operand2: Some(i),
                    operand3: None,
                    label: None,
                    directive: None,
                },
                skip(text, s3, CharClass::MultiSpace),
            ),
        ),
        None => None,
    }
}

/// Reads a line with an opcode, a register and two integers at the start of
/// the window.
pub fn instruction_three_in(text: &[char], w: Span) -> (r: Option<(AssemblerInstruction, Span)>)
    requires
        w.wf(text@),
    ensures
        found(r, spec_instruction_three(w.of(text@)), text@, w),
{
    let (o, s1) = match opcode_in(text, trim_span(text, w)) {
        Some(p) => p,
        None => {
            return None;
        },
    };
    let (r, s2) = match register_in(text, skip(text, s1, CharClass::MultiSpace)) {
        Some(p) => p,
        None => {
            return None;
        },
    };
    let (i, s3) = match integer_operand_in(text, skip(text, s2, CharClass::MultiSpace)) {
        Some(p) => p,
        None => {
            return None;
        },
    };
    match integer_operand_in(text, skip(text, s3, CharClass::MultiSpace)) {
        Some((i2, s4)) => Some(
            (
                AssemblerInstruction {
                    opcode: Some(o),
                    operand1: Some(r),
                    operand2: Some(i),
                    operand3: Some(i2),
                    label: None,
                    directive: None,
                },
                skip(text, s4, CharClass::MultiSpace),
            ),
        ),
        None => None,
    }
}

/// Reads a line with an opcode in its general shape at the start of the
/// window.
pub fn instruction_all_in(text: &[char], w: Span) -> (r: Option<(AssemblerInstruction, Span)>)
    requires
        w.wf(text@),
    ensures
        found(r, spec_instruction_all(w.of(text@)), text@, w),
{
    let s1 = skip(text, w, CharClass::MultiSpace);
    let (label, r1) = optional(label_declaration_in(text, s1), s1);
    match opcode_in(text, skip(text, r1, CharClass::Space)) {
        Some((o, s2)) => {
            let (operand1, operand2, operand3, rest) = operands_in(text, s2);
            Some(
                (
                    AssemblerInstruction {
                        opcode: Some(o),
                        label,
                        directive: None,
                        operand1,
                        operand2,
                        operand3,
                    },
                    rest,
                ),
            )
        },
        None => None,
    }
}

/// Reads a line at the start of the window.
pub fn instruction_in(text: &[char], w: Span) -> (r: Option<(AssemblerInstruction, Span)>)
    requires
        w.wf(text@),
    ensures
        found(r, spec_instruction(w.of(text@)), text@, w),
{
    let directive = directive_in(text, w);
    if directive.is_some() {
        return directive;
    }
    let all = instruction_all_in(text, w);
    if all.is_some() {
        return all;
    }
    let three = instruction_three_in(text, w);
    if three.is_some() {
        return three;
    }
    let two = instruction_two_in(text, w);
    if two.is_some() {
        return two;
    }
    let one = instruction_one_in(text, w);
    if one.is_some() {
        return one;
    }
    instruction_zero_in(text, w)
}

/// Reads a line with an opcode and no operand at the start of the input:
/// the text that is left and the line.
pub fn instruction_zero<'a>(input: &'a str) -> (r: Result<
    (&'a str, AssemblerInstruction),
    ParseError,
>)
    ensures
        produced(r, spec_instruction_zero(input@), ParseError::Instruction),
{
    let text = chars_of(input);
    finish(input, instruction_zero_in(text.as_slice(), whole(&text)), ParseError::Instruction)
}

/// Reads a line with an opcode and one operand at the start of the input:
/// the text that is left and the line.
pub fn instruction_one<'a>(input: &'a str) -> (r: Result<
    (&'a str, AssemblerInstruction),
    ParseError,
>)
    ensures
        produced(r, spec_instruction_one(input@), ParseError::Instruction),
{
    let text = chars_of(input);
    finish(input, instruction_one_in(text.as_slice(), whole(&text)), ParseError::Instruction)
}

/// Reads a line with an opcode, a register and an integer at the start of
/// the input: the text that is left and the line.
pub fn instruction_two<'a>(input: &'a str) -> (r: Result<
    (&'a str, AssemblerInstruction),
    ParseError,
>)
    ensures
        produced(r, spec_instruction_two(input@), ParseError::Instruction),
{
    let text = chars_of(input);
    finish(input, instruction_two_in(text.as_slice(), whole(&text)), ParseError::Instruction)
}

/// Reads a line with an opcode, a register and two integers at the start
/// of the input: the text that is left and the line.
pub fn instruction_three<'a>(input: &'a str) -> (r: Result<
    (&'a str, AssemblerInstruction),
    ParseError,
>)
    ensures
        produced(r, spec_instruction_three(input@), ParseError::Instruction),
{
    let text = chars_of(input);
    finish(input, instruction_three_in(text.as_slice(), whole(&text)), ParseError::Instruction)
}

/// Reads a line with an opcode in its general shape at the start of the
/// input: the text that is left and the line.
pub fn instruction_all<'a>(input: &'a str) -> (r: Result<
    (&'a str, AssemblerInstruction),
    ParseError,
>)
    ensures
        produced(r, spec_instruction_all(input@), ParseError::Instruction),
{
    let text = chars_of(input);
    finish(input, instruction_all_in(text.as_slice(), whole(&text)), ParseError::Instruction)
}

/// Reads a line at the start of the input: the text that is left and the
/// line.
pub fn instruction<'a>(input: &'a str) -> (r: Result<(&'a str, AssemblerInstruction), ParseError>)
    ensures
        produced(r, spec_instruction(input@), ParseError::Instruction),
{
    let text = chars_of(input);
    finish(input, instruction_in(text.as_slice(), whole(&text)), ParseError::Instruction)
}

} // verus!
