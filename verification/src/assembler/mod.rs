//! The assembler: the grammar of the assembly dialect and the two passes
//! that turn a parsed program into an image.

pub mod laws;
pub mod parser_directive;
pub mod parser_instruction;
pub mod parser_label;
pub mod parser_laws;
pub mod parser_op;
pub mod parser_operand;
pub mod parser_program;
pub mod parser_reg;
pub mod text;

use crate::assembler::laws::{law_code_length, opcode_lines};
use crate::assembler::parser_instruction::{
    lemma_defect, AssemblerInstruction, InstructionModel,
};
use crate::assembler::parser_program::{program, spec_program, Program};
use crate::instruction::Opcode;
use vstd::prelude::*;
use vstd::string::StringExecFns;
use vstd::utf8::encode_utf8;

verus! {

/// The four bytes that every image starts with.
pub const PIE_HEADER_PREFIX: [u8; 4] = [0x7e, 0x50, 0x49, 0x45];

/// Length of the header of an image.
pub const PIE_HEADER_LENGTH: usize = 64;

/// A lexical unit of the assembly dialect.
#[derive(Debug, PartialEq)]
pub enum Token {
    Op { code: Opcode },
    Reg { reg: u8 },
    IntegerOperand { i: i32 },
    LabelDeclaration { name: String },
    LabelUsage { name: String },
    Directive { name: String },
    String { name: String },
}

/// A token as contracts speak of it: its texts are sequences of characters.
pub enum TokenModel {
    Op { code: Opcode },
    Reg { reg: u8 },
    IntegerOperand { i: i32 },
    LabelDeclaration { name: Seq<char> },
    LabelUsage { name: Seq<char> },
    Directive { name: Seq<char> },
    String { name: Seq<char> },
}

impl View for Token {
    type V = TokenModel;

    open spec fn view(&self) -> TokenModel {
        match self {
            Token::Op { code } => TokenModel::Op { code: *code },
            Token::Reg { reg } => TokenModel::Reg { reg: *reg },
            Token::IntegerOperand { i } => TokenModel::IntegerOperand { i: *i },
            Token::LabelDeclaration { name } => TokenModel::LabelDeclaration { name: name@ },
            Token::LabelUsage { name } => TokenModel::LabelUsage { name: name@ },
            Token::Directive { name } => TokenModel::Directive { name: name@ },
            Token::String { name } => TokenModel::String { name: name@ },
        }
    }
}

/// The token in a slot that may be empty, as contracts speak of it.
pub open spec fn slot(t: Option<Token>) -> Option<TokenModel> {
    match t {
        Some(t) => Some(t@),
        None => None,
    }
}

/// The part of the grammar that a text does not match.
#[derive(Copy, Clone, Debug, PartialEq, Eq, Structural)]
pub enum ParseError {
    Register,
    IntegerOperand,
    StringOperand,
    Operand,
    LabelDeclaration,
    LabelUsage,
    Directive,
    Opcode,
    Instruction,
    Program,
}

impl ParseError {
    /// What the error says in words.
    pub open spec fn spec_message(self) -> Seq<char> {
        match self {
            ParseError::Register => "expected a register"@,
            ParseError::IntegerOperand => "expected an integer operand"@,
            ParseError::StringOperand => "expected a string operand"@,
            ParseError::Operand => "expected an operand"@,
            ParseError::LabelDeclaration => "expected a label declaration"@,
            ParseError::LabelUsage => "expected a label usage"@,
            ParseError::Directive => "expected a directive"@,
            ParseError::Opcode => "expected an opcode"@,
            ParseError::Instruction => "expected an instruction"@,
            ParseError::Program => "expected a program"@,
        }
    }

    /// What the error says in words.
    pub fn message(&self) -> (s: String)
        ensures
            s@ == self.spec_message(),
    {
        match self {
            ParseError::Register => String::from_str("expected a register"),
            ParseError::IntegerOperand => String::from_str("expected an integer operand"),
            ParseError::StringOperand => String::from_str("expected a string operand"),
            ParseError::Operand => String::from_str("expected an operand"),
            ParseError::LabelDeclaration => String::from_str("expected a label declaration"),
            ParseError::LabelUsage => String::from_str("expected a label usage"),
            ParseError::Directive => String::from_str("expected a directive"),
            ParseError::Opcode => String::from_str("expected an opcode"),
            ParseError::Instruction => String::from_str("expected an instruction"),
            ParseError::Program => String::from_str("expected a program"),
        }
    }
}

/// A section of a source text.
#[derive(Copy, Clone, Debug, PartialEq, Eq, Structural)]
pub enum AssemblerSection {
    Data,
    Code,
}

/// The pass that an assembler is in.
#[derive(Copy, Clone, Debug, PartialEq, Eq, Structural)]
pub enum AssemblerPhase {
    First,
    Second,
}

/// What an assembler found wrong with a source text. The number says where:
/// the index of the line for a redeclared symbol, four times that index for
/// the others.
#[derive(Debug, Clone, PartialEq)]
pub enum AssemblerError {
    ParseError(String),
    NoSegmentFor(usize, String),
    SymbolRedeclared(usize, String),
    UnknownDirective(usize, String),
}

/// An error as contracts speak of it.
pub enum ErrorModel {
    ParseError(Seq<char>),
    NoSegmentFor(usize, Seq<char>),
    SymbolRedeclared(usize, Seq<char>),
    UnknownDirective(usize, Seq<char>),
}

impl View for AssemblerError {
    type V = ErrorModel;

    open spec fn view(&self) -> ErrorModel {
        match self {
            AssemblerError::ParseError(detail) => ErrorModel::ParseError(detail@),
            AssemblerError::NoSegmentFor(at, name) => ErrorModel::NoSegmentFor(*at, name@),
            AssemblerError::SymbolRedeclared(at, name) => ErrorModel::SymbolRedeclared(*at, name@),
            AssemblerError::UnknownDirective(at, name) => ErrorModel::UnknownDirective(*at, name@),
        }
    }
}

/// Errors as contracts speak of them.
pub open spec fn errors_view(errors: Seq<AssemblerError>) -> Seq<ErrorModel> {
    Seq::new(errors.len(), |i: int| errors[i]@)
}

/// Why a program is not assembled.
#[derive(Copy, Clone, Debug, PartialEq, Eq, Structural)]
pub enum Refusal {
    /// The program has more than `MAX_LINES` lines.
    TooManyLines,
    /// An operand slot of a line that has an opcode holds a token that is
    /// no register, no integer and no use of a label.
    BadOperand,
    /// A line that has an opcode uses a label that the table does not hold.
    UnknownLabel,
    /// The operands of a line do not fit the three bytes behind its opcode.
    TooWide,
}

/// The kind of a symbol.
#[derive(Copy, Clone, Debug, PartialEq, Eq, Structural)]
pub enum SymbolType {
    Label,
}

/// A name bound to an offset.
#[derive(Debug)]
pub struct Symbol {
    pub name: String,
    pub offset: u32,
    pub type_: SymbolType,
}

/// A symbol as contracts speak of it.
pub struct SymbolModel {
    pub name: Seq<char>,
    pub offset: u32,
    pub kind: SymbolType,
}

impl View for Symbol {
    type V = SymbolModel;

    open spec fn view(&self) -> SymbolModel {
        SymbolModel { name: self.name@, offset: self.offset, kind: self.type_ }
    }
}

/// The symbols of a program, in the order in which they were added.
#[derive(Debug)]
pub struct SymbolTable {
    pub symbols: Vec<Symbol>,
}

impl View for SymbolTable {
    type V = Seq<SymbolModel>;

    open spec fn view(&self) -> Seq<SymbolModel> {
        Seq::new(self.symbols@.len(), |i: int| self.symbols@[i]@)
    }
}

/// Some symbol of the table has the name.
pub open spec fn has_name(symbols: Seq<SymbolModel>, name: Seq<char>) -> bool {
    exists|i: int| 0 <= i < symbols.len() && (#[trigger] symbols[i]).name == name
}

/// The offset of the first symbol of the table that has the name.
pub open spec fn value_of(symbols: Seq<SymbolModel>, name: Seq<char>) -> Option<u32>
    decreases symbols.len(),
{
    if symbols.len() == 0 {
        None
    } else if symbols[0].name == name {
        Some(symbols[0].offset)
    } else {
        value_of(symbols.drop_first(), name)
    }
}

/// The table with the offset of every symbol of that name replaced.
pub open spec fn with_offset(symbols: Seq<SymbolModel>, name: Seq<char>, offset: u32) -> Seq<
    SymbolModel,
> {
    Seq::new(
        symbols.len(),
        |i: int|
            if symbols[i].name == name {
                SymbolModel { offset: offset, ..symbols[i] }
            } else {
                symbols[i]
            },
    )
}

/// A name has a value exactly where the table has a symbol of that name.
pub proof fn lemma_value_of_has_name(symbols: Seq<SymbolModel>, name: Seq<char>)
    ensures
        value_of(symbols, name) is Some <==> has_name(symbols, name),
    decreases symbols.len(),
{
    if symbols.len() > 0 {
        if symbols[0].name == name {
            assert(has_name(symbols, name));
        } else {
            lemma_value_of_has_name(symbols.drop_first(), name);
            if has_name(symbols.drop_first(), name) {
                let i = choose|i: int|
                    0 <= i < symbols.drop_first().len() && (#[trigger] symbols.drop_first()[i]).name
                        == name;
                assert(symbols[i + 1].name == name);
            }
            if has_name(symbols, name) {
                let i = choose|i: int|
                    0 <= i < symbols.len() && (#[trigger] symbols[i]).name == name;
                assert(symbols.drop_first()[i - 1].name == name);
            }
        }
    }
}

impl Symbol {
    /// A symbol of the given name, kind and offset.
    pub fn new(name: String, type_: SymbolType, offset: u32) -> (s: Symbol)
        ensures
            s.name == name,
            s.type_ == type_,
            s.offset == offset,
            s@ == (SymbolModel { name: name@, offset: offset, kind: type_ }),
    {
        Symbol { name, type_, offset }
    }
}

impl SymbolTable {
    /// A table without symbols.
    pub fn new() -> (t: SymbolTable)
        ensures
            t@ == Seq::<SymbolModel>::empty(),
    {
        let t = SymbolTable { symbols: Vec::new() };
        assert(t@ =~= Seq::<SymbolModel>::empty());
        t
    }

    /// Number of symbols of the table.
    pub fn len(&self) -> (n: usize)
        ensures
            n == self@.len(),
    {
        self.symbols.len()
    }

    /// Appends a symbol. Whether the name is already taken is for the
    /// caller to test.
    pub fn add_symbol(&mut self, s: Symbol)
        ensures
            final(self)@ == old(self)@.push(s@),
    {
        self.symbols.push(s);
        assert(self@ =~= old(self)@.push(s@));
    }

    /// Whether some symbol of the table has the name.
    pub fn has_symbol(&self, name: &String) -> (b: bool)
        ensures
            b == has_name(self@, name@),
    {
        let mut i: usize = 0;
        while i < self.symbols.len()
            invariant
                i <= self.symbols.len(),
                forall|j: int| 0 <= j < i ==> (#[trigger] self@[j]).name != name@,
            decreases self.symbols.len() - i,
        {
            if self.symbols[i].name == *name {
                assert(self@[i as int].name == name@);
                return true;
            }
            i += 1;
        }
        false
    }

    /// The offset of the first symbol of the table that has the name.
    pub fn symbol_value(&self, s: &str) -> (v: Option<u32>)
        ensures
            v == value_of(self@, s@),
    {
        let wanted = String::from_str(s);
        let mut i: usize = 0;
        assert(self@.skip(0) =~= self@);
        while i < self.symbols.len()
            invariant
                i <= self.symbols.len(),
                wanted@ == s@,
                value_of(self@, s@) == value_of(self@.skip(i as int), s@),
            decreases self.symbols.len() - i,
        {
            assert(self@.skip(i as int)[0] == self@[i as int]);
            if self.symbols[i].name == wanted {
                return Some(self.symbols[i].offset);
            }
            assert(self@.skip(i as int).drop_first() =~= self@.skip(i + 1));
            i += 1;
        }
        None
    }

    /// Replaces the offset of every symbol of that name. A table without
    /// such a symbol stays as it is.
    pub fn set_symbol_offset(&mut self, s: &String, offset: u32)
        ensures
            final(self)@ == with_offset(old(self)@, s@, offset),
    {
        let mut i: usize = 0;
        while i < self.symbols.len()
            invariant
                i <= self.symbols.len(),
                self@.len() == old(self)@.len(),
                forall|j: int|
                    0 <= j < i ==> #[trigger] self@[j] == with_offset(old(self)@, s@, offset)[j],
                forall|j: int| i <= j < self@.len() ==> #[trigger] self@[j] == old(self)@[j],
            decreases self.symbols.len() - i,
        {
            let ghost before = self@;
            assert(before[i as int] == old(self)@[i as int]);
            if self.symbols[i].name == *s {
                self.symbols[i].offset = offset;
                assert(self@[i as int] == (SymbolModel { offset: offset, ..before[i as int] }));
            }
            assert forall|j: int| 0 <= j < self@.len() && j != i implies #[trigger] self@[j]
                == before[j] by {}
            i += 1;
        }
        assert(self@ =~= with_offset(old(self)@, s@, offset));
    }
}

/// The most lines that a program can have: four times the index of each
/// fits an offset.
pub const MAX_LINES: usize = 0x3fff_ffff;

/// The state of an assembler.
#[derive(Debug)]
pub struct Assembler {
    pub phase: AssemblerPhase,
    pub symbols: SymbolTable,
    /// The read-only data section.
    pub ro: Vec<u8>,
    /// The compiled bytecode.
    pub bytecode: Vec<u8>,
    pub sections: Vec<AssemblerSection>,
    pub current_section: Option<AssemblerSection>,
    pub current_instruction: usize,
    pub errors: Vec<AssemblerError>,
}

/// The state of an assembler as contracts speak of it.
pub struct AssemblerModel {
    pub phase: AssemblerPhase,
    pub symbols: Seq<SymbolModel>,
    pub ro: Seq<u8>,
    pub bytecode: Seq<u8>,
    pub sections: Seq<AssemblerSection>,
    pub current_section: Option<AssemblerSection>,
    pub current_instruction: usize,
    pub errors: Seq<ErrorModel>,
}

impl View for Assembler {
    type V = AssemblerModel;

    open spec fn view(&self) -> AssemblerModel {
        AssemblerModel {
            phase: self.phase,
            symbols: self.symbols@,
            ro: self.ro@,
            bytecode: self.bytecode@,
            sections: self.sections@,
            current_section: self.current_section,
            current_instruction: self.current_instruction,
            errors: errors_view(self.errors@),
        }
    }
}

/// The header of an image: the four bytes of the prefix, then zero bytes
/// up to a length of 64.
pub open spec fn pie_header() -> Seq<u8> {
    seq![0x7eu8, 0x50u8, 0x49u8, 0x45u8] + Seq::new(60, |i: int| 0u8)
}

/// The code of a program: the encodings of its lines that have an opcode,
/// in their order.
pub open spec fn code_of(lines: Seq<InstructionModel>, symbols: Seq<SymbolModel>) -> Seq<u8>
    decreases lines.len(),
{
    if lines.len() == 0 {
        Seq::empty()
    } else if lines.last().has_opcode() {
        code_of(lines.drop_last(), symbols) + lines.last().bytes(symbols)
    } else {
        code_of(lines.drop_last(), symbols)
    }
}

/// Every line of the program that has an opcode can be encoded.
pub open spec fn all_encodable(lines: Seq<InstructionModel>, symbols: Seq<SymbolModel>) -> bool {
    forall|i: int|
        0 <= i < lines.len() && (#[trigger] lines[i]).has_opcode() ==> lines[i].encodable(symbols)
}

/// What keeps the second pass from encoding a program, if anything does:
/// the defect of the first line that has an opcode and a defect.
pub open spec fn first_defect(lines: Seq<InstructionModel>, symbols: Seq<SymbolModel>) -> Option<
    Refusal,
>
    decreases lines.len(),
{
    if lines.len() == 0 {
        None
    } else if lines[0].has_opcode() && lines[0].defect(symbols) is Some {
        lines[0].defect(symbols)
    } else {
        first_defect(lines.drop_first(), symbols)
    }
}

/// A program has no defect exactly where every line of it that has an
/// opcode can be encoded.
pub proof fn lemma_first_defect(lines: Seq<InstructionModel>, symbols: Seq<SymbolModel>)
    ensures
        first_defect(lines, symbols) is None <==> all_encodable(lines, symbols),
        first_defect(lines, symbols) != Some(Refusal::TooManyLines),
    decreases lines.len(),
{
    if lines.len() > 0 {
        lemma_defect(lines[0], symbols);
        lemma_first_defect(lines.drop_first(), symbols);
        let rest = lines.drop_first();
        if all_encodable(lines, symbols) {
            assert forall|i: int| 0 <= i < rest.len() && (#[trigger] rest[i]).has_opcode()
                implies rest[i].encodable(symbols) by {
                assert(rest[i] == lines[i + 1]);
            }
        }
        if all_encodable(rest, symbols) && lines[0].encodable(symbols) {
            assert forall|i: int| 0 <= i < lines.len() && (#[trigger] lines[i]).has_opcode()
                implies lines[i].encodable(symbols) by {
                if i > 0 {
                    assert(lines[i] == rest[i - 1]);
                }
            }
        }
        if all_encodable(rest, symbols) && !lines[0].has_opcode() {
            assert forall|i: int| 0 <= i < lines.len() && (#[trigger] lines[i]).has_opcode()
                implies lines[i].encodable(symbols) by {
                if i > 0 {
                    assert(lines[i] == rest[i - 1]);
                }
            }
        }
    }
}

/// What an assembly gives as contracts speak of it.
pub open spec fn outcome_view(r: Result<Vec<u8>, Vec<AssemblerError>>) -> Result<
    Seq<u8>,
    Seq<ErrorModel>,
> {
    match r {
        Ok(image) => Ok(image@),
        Err(errors) => Err(errors_view(errors@)),
    }
}

impl AssemblerModel {
    /// The state of an assembler that has assembled nothing yet.
    pub open spec fn fresh() -> AssemblerModel {
        AssemblerModel {
            phase: AssemblerPhase::First,
            symbols: Seq::empty(),
            ro: Seq::empty(),
            bytecode: Seq::empty(),
            sections: Seq::empty(),
            current_section: None,
            current_instruction: 0,
            errors: Seq::empty(),
        }
    }

    /// The state with one more error.
    pub open spec fn failed(self, error: ErrorModel) -> AssemblerModel {
        AssemblerModel { errors: self.errors.push(error), ..self }
    }

    /// The state after the section `section` has started.
    pub open spec fn in_section(self, section: AssemblerSection) -> AssemblerModel {
        AssemblerModel {
            sections: self.sections.push(section),
            current_section: Some(section),
            ..self
        }
    }

    /// What the first pass does with the label of line `idx`. Outside of
    /// any section the label is an error; a name that the table holds is
    /// one too; any other name enters the table with four times the index
    /// of the line as its offset.
    pub open spec fn declared(self, line: InstructionModel, idx: nat) -> AssemblerModel {
        match line.label_name() {
            Some(name) => if self.current_section is None {
                self.failed(ErrorModel::NoSegmentFor((idx * 4) as usize, name))
            } else if has_name(self.symbols, name) {
                self.failed(ErrorModel::SymbolRedeclared(idx as usize, name))
            } else {
                AssemblerModel {
                    symbols: self.symbols.push(
                        SymbolModel {
                            name: name,
                            offset: (idx * 4) as u32,
                            kind: SymbolType::Label,
                        },
                    ),
                    ..self
                }
            },
            None => self,
        }
    }

    /// What `asciiz` does in the first pass: the label of the line gets the
    /// length of the read-only data as its offset, and the bytes of the
    /// string and a zero byte are appended to the data. Nothing happens in
    /// the second pass, nor where the first operand is no string.
    pub open spec fn with_string(self, line: InstructionModel) -> AssemblerModel {
        if self.phase != AssemblerPhase::First {
            self
        } else {
            match (line.operand1, line.label_name()) {
                (Some(TokenModel::String { name: text }), Some(label)) => AssemblerModel {
                    symbols: with_offset(
                        self.symbols,
                        label,
                        (self.ro.len() % 0x1_0000_0000) as u32,
                    ),
                    ro: self.ro + encode_utf8(text) + seq![0u8],
                    ..self
                },
                _ => self,
            }
        }
    }

    /// What the first pass does with the directive of line `idx`. With a
    /// label and an operand, `asciiz` stores a string and any other name is
    /// an error. Without an operand, `code` and `data` start a section and
    /// any other name is an error. A directive with an operand and no label
    /// is passed over.
    pub open spec fn directed(self, line: InstructionModel, idx: nat) -> AssemblerModel {
        match line.directive_name() {
            Some(d) => if line.operand1 is Some && line.label_name() is Some {
                if d == "asciiz"@ {
                    self.with_string(line)
                } else {
                    self.failed(ErrorModel::UnknownDirective((idx * 4) as usize, d))
                }
            } else if line.operand1 is None {
                if d == "code"@ {
                    self.in_section(AssemblerSection::Code)
                } else if d == "data"@ {
                    self.in_section(AssemblerSection::Data)
                } else {
                    self.failed(ErrorModel::UnknownDirective((idx * 4) as usize, d))
                }
            } else {
                self
            },
            None => self,
        }
    }

    /// The state after the first pass has gone over the first `n` lines.
    pub open spec fn scanned(self, lines: Seq<InstructionModel>, n: nat) -> AssemblerModel
        decreases n,
    {
        if n == 0 {
            self
        } else {
            self.scanned(lines, (n - 1) as nat).declared(lines[n - 1], (n - 1) as nat).directed(
                lines[n - 1],
                (n - 1) as nat,
            )
        }
    }

    /// The state after the first pass over a program.
    pub open spec fn first_phase(self, lines: Seq<InstructionModel>) -> AssemblerModel {
        AssemblerModel {
            phase: AssemblerPhase::Second,
            ..self.scanned(lines, lines.len())
        }
    }

    /// The second pass may run: the first left no error, and the source
    /// has started a code section.
    pub open spec fn ready(self) -> bool {
        self.errors.len() == 0 && self.sections.contains(AssemblerSection::Code)
    }

    /// The state after the assembly of a source text, and what the assembly
    /// gives: the header and the code where the text holds a program and
    /// the first pass leaves the assembler ready, and the errors where it
    /// does not. A text that holds no program leaves the state as it was.
    pub open spec fn assembled(self, raw: Seq<char>) -> (
        AssemblerModel,
        Result<Seq<u8>, Seq<ErrorModel>>,
    ) {
        match spec_program(raw) {
            Some((lines, _)) => {
                let after = self.first_phase(lines);
                if after.ready() {
                    (after, Ok(pie_header() + code_of(lines, after.symbols)))
                } else {
                    (after, Err(after.errors))
                }
            },
            None => (
                self,
                Err(seq![ErrorModel::ParseError(ParseError::Program.spec_message())]),
            ),
        }
    }

    /// Why the program of a source text is not assembled, if it is not: it
    /// has too many lines, or the first pass leaves the assembler ready and
    /// the second would come to a line that it cannot encode. A text that
    /// holds no program is not refused: its assembly gives a parse error.
    pub open spec fn refusal(self, raw: Seq<char>) -> Option<Refusal> {
        match spec_program(raw) {
            Some((lines, _)) => if lines.len() > MAX_LINES {
                Some(Refusal::TooManyLines)
            } else if self.first_phase(lines).ready() {
                first_defect(lines, self.first_phase(lines).symbols)
            } else {
                None
            },
            None => None,
        }
    }

    /// The state that an attempt to assemble a source text leaves: that of
    /// the assembly, but for a program of too many lines, over which no
    /// pass is made.
    pub open spec fn tried(self, raw: Seq<char>) -> AssemblerModel {
        if self.refusal(raw) == Some(Refusal::TooManyLines) {
            self
        } else {
            self.assembled(raw).0
        }
    }
}

/// A program of which every line can be encoded has an opcode on every
/// line.
pub proof fn lemma_all_lines_have_opcodes(lines: Seq<InstructionModel>)
    requires
        forall|i: int| 0 <= i < lines.len() ==> (#[trigger] lines[i]).has_opcode(),
    ensures
        opcode_lines(lines) == lines.len(),
    decreases lines.len(),
{
    if lines.len() > 0 {
        assert forall|i: int| 0 <= i < lines.drop_last().len() implies (
        #[trigger] lines.drop_last()[i]).has_opcode() by {
            assert(lines.drop_last()[i] == lines[i]);
        }
        lemma_all_lines_have_opcodes(lines.drop_last());
    }
}

/// Whether a text is the text of a literal.
pub(crate) fn is_text(s: &String, literal: &str) -> (b: bool)
    ensures
        b == (s@ == literal@),
{
    let other = String::from_str(literal);
    *s == other
}

/// Appends bytes to a vector.
pub(crate) fn append_bytes(dst: &mut Vec<u8>, src: &[u8])
    ensures
        final(dst)@ == old(dst)@ + src@,
{
    let mut i: usize = 0;
    while i < src.len()
        invariant
            i <= src.len(),
            dst@ == old(dst)@ + src@.take(i as int),
        decreases src.len() - i,
    {
        dst.push(src[i]);
        assert(src@.take(i + 1) =~= src@.take(i as int).push(src@[i as int]));
        assert(dst@ =~= old(dst)@ + src@.take(i + 1));
        i += 1;
    }
    assert(src@.take(src.len() as int) =~= src@);
}

/// A copy of an error.
fn copy_error(e: &AssemblerError) -> (c: AssemblerError)
    ensures
        c@ == e@,
{
    match e {
        AssemblerError::ParseError(detail) => AssemblerError::ParseError(detail.clone()),
        AssemblerError::NoSegmentFor(at, name) => AssemblerError::NoSegmentFor(*at, name.clone()),
        AssemblerError::SymbolRedeclared(at, name) => AssemblerError::SymbolRedeclared(
            *at,
            name.clone(),
        ),
        AssemblerError::UnknownDirective(at, name) => AssemblerError::UnknownDirective(
            *at,
            name.clone(),
        ),
    }
}

/// A copy of a list of errors.
fn copy_errors(errors: &Vec<AssemblerError>) -> (c: Vec<AssemblerError>)
    ensures
        errors_view(c@) == errors_view(errors@),
{
    let mut c: Vec<AssemblerError> = Vec::new();
    let mut i: usize = 0;
    while i < errors.len()
        invariant
            i <= errors.len(),
            c@.len() == i,
            forall|j: int| 0 <= j < i ==> (#[trigger] c@[j])@ == errors@[j]@,
        decreases errors.len() - i,
    {
        c.push(copy_error(&errors[i]));
        i += 1;
    }
    assert(errors_view(c@) =~= errors_view(errors@));
    c
}

impl Program {
    /// Whether every line that has an opcode can be encoded with the
    /// symbols of `st`.
    pub fn can_emit(&self, st: &SymbolTable) -> (b: bool)
        ensures
            b == all_encodable(self@, st@),
    {
        let mut i: usize = 0;
        while i < self.instructions.len()
            invariant
                i <= self.instructions.len(),
                forall|j: int|
                    0 <= j < i && (#[trigger] self@[j]).has_opcode() ==> self@[j].encodable(st@),
            decreases self.instructions.len() - i,
        {
            let line = &self.instructions[i];
            assert(line@ == self@[i as int]);
            let coded = match &line.opcode {
                Some(Token::Op { .. }) => true,
                _ => false,
            };
            if coded && !line.encodable(st) {
                return false;
            }
            i += 1;
        }
        true
    }

    /// What keeps the second pass from encoding the program with the
    /// symbols of `st`, if anything does.
    pub fn defect(&self, st: &SymbolTable) -> (d: Option<Refusal>)
        ensures
            d == first_defect(self@, st@),
            d is None <==> all_encodable(self@, st@),
    {
        proof {
            lemma_first_defect(self@, st@);
        }
        let mut i: usize = 0;
        assert(self@.skip(0) =~= self@);
        while i < self.instructions.len()
            invariant
                i <= self.instructions.len(),
                first_defect(self@, st@) == first_defect(self@.skip(i as int), st@),
            decreases self.instructions.len() - i,
        {
            let line = &self.instructions[i];
            assert(line@ == self@[i as int]);
            assert(self@.skip(i as int)[0] == self@[i as int]);
            assert(self@.skip(i as int).drop_first() =~= self@.skip(i + 1));
            if let Some(Token::Op { .. }) = &line.opcode {
                let d = line.defect(st);
                if d.is_some() {
                    return d;
                }
            }
            i += 1;
        }
        None
    }

    /// Whether every line has an opcode and can be encoded without any
    /// symbol.
    pub fn plain(&self) -> (b: bool)
        ensures
            b == (forall|i: int|
                0 <= i < self@.len() ==> (#[trigger] self@[i]).encodable(Seq::empty())),
    {
        let st = SymbolTable::new();
        let mut i: usize = 0;
        while i < self.instructions.len()
            invariant
                i <= self.instructions.len(),
                st@ == Seq::<SymbolModel>::empty(),
                forall|j: int| 0 <= j < i ==> (#[trigger] self@[j]).encodable(Seq::empty()),
            decreases self.instructions.len() - i,
        {
            assert(self.instructions[i as int]@ == self@[i as int]);
            if !self.instructions[i].encodable(&st) {
                return false;
            }
            i += 1;
        }
        true
    }

    /// The encodings of the lines of a program of which every line has an
    /// opcode and uses no label, one after another.
    pub fn to_bytes(&self) -> (prog: Vec<u8>)
        requires
            forall|i: int| 0 <= i < self@.len() ==> (#[trigger] self@[i]).encodable(Seq::empty()),
        ensures
            prog@ == code_of(self@, Seq::empty()),
            prog@.len() == 4 * self@.len(),
    {
        proof {
            law_code_length(self@, Seq::empty());
            lemma_all_lines_have_opcodes(self@);
        }
        let st = SymbolTable::new();
        let mut prog: Vec<u8> = Vec::new();
        let mut i: usize = 0;
        while i < self.instructions.len()
            invariant
                i <= self.instructions.len(),
                st@ == Seq::<SymbolModel>::empty(),
                forall|i: int|
                    0 <= i < self@.len() ==> (#[trigger] self@[i]).encodable(Seq::empty()),
                prog@ == code_of(self@.take(i as int), Seq::empty()),
            decreases self.instructions.len() - i,
        {
            assert(self.instructions[i as int]@ == self@[i as int]);
            let mut bytes = self.instructions[i].to_bytes(&st);
            prog.append(&mut bytes);
            assert(self@.take(i + 1).drop_last() =~= self@.take(i as int));
            i += 1;
        }
        assert(self@.take(self@.len() as int) =~= self@);
        prog
    }
}

impl Assembler {
    /// An assembler that has assembled nothing yet.
    pub fn new() -> (a: Assembler)
        ensures
            a@ == AssemblerModel::fresh(),
    {
        let a = Assembler {
            phase: AssemblerPhase::First,
            symbols: SymbolTable::new(),
            ro: Vec::new(),
            bytecode: Vec::new(),
            sections: Vec::new(),
            current_section: None,
            current_instruction: 0,
            errors: Vec::new(),
        };
        assert(a@.errors =~= Seq::<ErrorModel>::empty());
        a
    }

    /// Records an error.
    fn fail(&mut self, error: AssemblerError)
        ensures
            final(self)@ == old(self)@.failed(error@),
    {
        self.errors.push(error);
        assert(self@.errors =~= old(self)@.errors.push(error@));
    }

    /// Starts a section.
    fn enter(&mut self, section: AssemblerSection)
        ensures
            final(self)@ == old(self)@.in_section(section),
    {
        self.sections.push(section);
        self.current_section = Some(section);
    }

    /// Whether the source has started a code section.
    fn has_code_section(&self) -> (b: bool)
        ensures
            b == self@.sections.contains(AssemblerSection::Code),
    {
        let mut i: usize = 0;
        while i < self.sections.len()
            invariant
                i <= self.sections.len(),
                forall|j: int| 0 <= j < i ==> self.sections@[j] != AssemblerSection::Code,
            decreases self.sections.len() - i,
        {
            if self.sections[i] == AssemblerSection::Code {
                return true;
            }
            i += 1;
        }
        false
    }

    /// The first pass over one line.
    fn scan_line(&mut self, line: &AssemblerInstruction, idx: usize)
        requires
            idx < MAX_LINES,
        ensures
            final(self)@ == old(self)@.declared(line@, idx as nat).directed(line@, idx as nat),
    {
        if let Some(label) = line.label_name() {
            if self.current_section.is_none() {
                self.fail(AssemblerError::NoSegmentFor(idx * 4, label));
            } else if self.symbols.has_symbol(&label) {
                self.fail(AssemblerError::SymbolRedeclared(idx, label));
            } else {
                self.symbols.add_symbol(Symbol::new(label, SymbolType::Label, (idx * 4) as u32));
            }
        }
        assert(self@ == old(self)@.declared(line@, idx as nat));
        if let Some(directive) = line.directive_name() {
            if line.operand1.is_some() && line.label_name().is_some() {
                if is_text(&directive, "asciiz") {
                    self.do_asciiz(line);
                } else {
                    self.fail(AssemblerError::UnknownDirective(idx * 4, directive));
                }
            } else if line.operand1.is_none() {
                if is_text(&directive, "code") {
                    self.enter(AssemblerSection::Code);
                } else if is_text(&directive, "data") {
                    self.enter(AssemblerSection::Data);
                } else {
                    self.fail(AssemblerError::UnknownDirective(idx * 4, directive));
                }
            }
        }
    }

    /// The first pass over a program: it collects the symbols, the
    /// sections, the strings and the errors, and ends in the second phase.
    pub fn process_first_phase(&mut self, p: &Program)
        requires
            p@.len() <= MAX_LINES,
        ensures
            final(self)@ == old(self)@.first_phase(p@),
    {
        let mut idx: usize = 0;
        while idx < p.instructions.len()
            invariant
                idx <= p.instructions.len(),
                p@.len() <= MAX_LINES,
                self@ == old(self)@.scanned(p@, idx as nat),
            decreases p.instructions.len() - idx,
        {
            assert(p.instructions[idx as int]@ == p@[idx as int]);
            self.scan_line(&p.instructions[idx], idx);
            idx += 1;
        }
        self.phase = AssemblerPhase::Second;
    }

    /// The second pass over a program: the code of its lines, encoded with
    /// the symbols that the first pass collected, four bytes for each line
    /// that has an opcode and nothing for the others. The assembler stays as
    /// it is.
    pub fn process_second_phase(&mut self, p: &Program) -> (prog: Vec<u8>)
        requires
            all_encodable(p@, old(self)@.symbols),
        ensures
            *final(self) == *old(self),
            prog@ == code_of(p@, old(self)@.symbols),
            prog@.len() == 4 * opcode_lines(p@),
    {
        proof {
            law_code_length(p@, self@.symbols);
        }
        let mut prog: Vec<u8> = Vec::new();
        let mut i: usize = 0;
        while i < p.instructions.len()
            invariant
                i <= p.instructions.len(),
                *self == *old(self),
                all_encodable(p@, self@.symbols),
                prog@ == code_of(p@.take(i as int), self@.symbols),
            decreases p.instructions.len() - i,
        {
            let line = &p.instructions[i];
            assert(line@ == p@[i as int]);
            assert(p@.take(i + 1).drop_last() =~= p@.take(i as int));
            if let Some(Token::Op { .. }) = &line.opcode {
                let mut bytes = line.to_bytes(&self.symbols);
                prog.append(&mut bytes);
            }
            i += 1;
        }
        assert(p@.take(p@.len() as int) =~= p@);
        prog
    }

    /// Stores the string of an `asciiz` line in the read-only data and
    /// binds the label of the line to the place of the string.
    pub fn do_asciiz(&mut self, i: &AssemblerInstruction)
        ensures
            final(self)@ == old(self)@.with_string(i@),
    {
        if self.phase != AssemblerPhase::First {
            return ;
        }
        if let Some(Token::String { name }) = &i.operand1 {
            if let Some(label) = i.label_name() {
                let offset = (self.ro.len() as u64 % 0x1_0000_0000) as u32;
                self.symbols.set_symbol_offset(&label, offset);
                append_bytes(&mut self.ro, name.as_str().as_bytes());
                self.ro.push(0);
                assert(self@.ro =~= old(self)@.ro + encode_utf8(name@) + seq![0u8]);
            }
        }
    }

    /// The header of an image.
    pub fn write_pie_header(&self) -> (header: Vec<u8>)
        ensures
            header@ == pie_header(),
    {
        let mut header: Vec<u8> = Vec::new();
        header.push(PIE_HEADER_PREFIX[0]);
        header.push(PIE_HEADER_PREFIX[1]);
        header.push(PIE_HEADER_PREFIX[2]);
        header.push(PIE_HEADER_PREFIX[3]);
        while header.len() < PIE_HEADER_LENGTH
            invariant
                4 <= header@.len() <= PIE_HEADER_LENGTH,
                header@ == seq![0x7eu8, 0x50u8, 0x49u8, 0x45u8] + Seq::new(
                    (header@.len() - 4) as nat,
                    |i: int| 0u8,
                ),
            decreases PIE_HEADER_LENGTH - header@.len(),
        {
            header.push(0u8);
            assert(header@ =~= seq![0x7eu8, 0x50u8, 0x49u8, 0x45u8] + Seq::new(
                (header@.len() - 4) as nat,
                |i: int| 0u8,
            ));
        }
        assert(header@ =~= pie_header());
        header
    }

    /// The second half of an assembly, after the first pass over `prog`:
    /// the image where the assembler is ready, the errors where it is not.
    fn emit(&mut self, prog: &Program) -> (r: Result<Vec<u8>, Vec<AssemblerError>>)
        requires
            old(self)@.ready() ==> all_encodable(prog@, old(self)@.symbols),
        ensures
            *final(self) == *old(self),
            outcome_view(r) == (if old(self)@.ready() {
                Ok::<Seq<u8>, Seq<ErrorModel>>(pie_header() + code_of(prog@, old(self)@.symbols))
            } else {
                Err::<Seq<u8>, Seq<ErrorModel>>(old(self)@.errors)
            }),
            r matches Ok(image) ==> image@.len() == 64 + 4 * opcode_lines(prog@),
    {
        if self.errors.len() == 0 && self.has_code_section() {
            let mut image = self.write_pie_header();
            let mut body = self.process_second_phase(prog);
            image.append(&mut body);
            Ok(image)
        } else {
            Err(copy_errors(&self.errors))
        }
    }

    /// What an assembly gives for a text that holds no program.
    fn parse_failure(e: ParseError) -> (r: Result<Vec<u8>, Vec<AssemblerError>>)
        ensures
            outcome_view(r) == Err::<Seq<u8>, Seq<ErrorModel>>(
                seq![ErrorModel::ParseError(e.spec_message())],
            ),
    {
        let mut errors: Vec<AssemblerError> = Vec::new();
        errors.push(AssemblerError::ParseError(e.message()));
        assert(errors_view(errors@) =~= seq![ErrorModel::ParseError(e.spec_message())]);
        Err(errors)
    }

    /// Assembles a source text: the image, which is the header and four
    /// bytes for each line that has an opcode, or the errors. The text may
    /// not hold a program that is refused; [`Assembler::try_assemble`] tests
    /// that.
    pub fn assemble(&mut self, raw: &str) -> (r: Result<Vec<u8>, Vec<AssemblerError>>)
        requires
            old(self)@.refusal(raw@) is None,
        ensures
            final(self)@ == old(self)@.assembled(raw@).0,
            outcome_view(r) == old(self)@.assembled(raw@).1,
            r is Ok <==> spec_program(raw@) is Some && old(self)@.assembled(raw@).0.ready(),
            r matches Ok(image) ==> image@.len() == 64 + 4 * opcode_lines(
                spec_program(raw@)->Some_0.0,
            ),
    {
        match program(raw) {
            Ok((_rest, prog)) => {
                self.process_first_phase(&prog);
                proof {
                    lemma_first_defect(prog@, self@.symbols);
                }
                self.emit(&prog)
            },
            Err(e) => Assembler::parse_failure(e),
        }
    }

    /// Assembles a source text unless its program is refused, and says why
    /// where it is. A program of too many lines leaves the assembler as it
    /// was; any other is refused after the first pass, which leaves the
    /// assembler as the assembly would.
    pub fn try_assemble(&mut self, raw: &str) -> (r: Result<
        Result<Vec<u8>, Vec<AssemblerError>>,
        Refusal,
    >)
        ensures
            final(self)@ == old(self)@.tried(raw@),
            match r {
                Ok(outcome) => old(self)@.refusal(raw@) is None && outcome_view(outcome) == old(
                    self,
                )@.assembled(raw@).1,
                Err(refusal) => old(self)@.refusal(raw@) == Some(refusal),
            },
            r matches Ok(Ok(image)) ==> image@.len() == 64 + 4 * opcode_lines(
                spec_program(raw@)->Some_0.0,
            ),
    {
        match program(raw) {
            Ok((_rest, prog)) => {
                if prog.instructions.len() > MAX_LINES {
                    return Err(Refusal::TooManyLines);
                }
                self.process_first_phase(&prog);
                proof {
                    lemma_first_defect(prog@, self@.symbols);
                }
                if self.errors.len() == 0 && self.has_code_section() {
                    if let Some(refusal) = prog.defect(&self.symbols) {
                        return Err(refusal);
                    }
                }
                Ok(self.emit(&prog))
            },
            Err(e) => Ok(Assembler::parse_failure(e)),
        }
    }
}

} // verus!
