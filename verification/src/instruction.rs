//! The opcode table: the closed set of instruction kinds and the mappings
//! between an opcode, its numeric code and its mnemonic.

use vstd::prelude::*;
use vstd::std_specs::convert::FromSpecImpl;
use vstd::string::StringExecFns;

verus! {

/// The instruction kinds of the machine. The numeric code of an opcode is
/// its position in this list, starting at zero; `IGL` stands for every byte
/// that names no instruction.
#[derive(Copy, Clone, Debug, PartialEq, Eq, Structural)]
pub enum Opcode {
    NOP,
    HLT,
    LOAD,
    ADD,
    SUB,
    MUL,
    DIV,
    INC,
    DEC,
    NEG,
    MOV,
    JMP,
    JMPB,
    JMPF,
    EQ,
    NEQ,
    GT,
    LT,
    GEQ,
    LEQ,
    JEQ,
    JNE,
    AND,
    OR,
    NOT,
    ALOC,
    PRTS,
    IGL,
}

/// Number of opcodes that name an instruction: every opcode but `IGL`.
pub const LEGAL_OPCODES: u8 = 27;

/// An instruction reduced to its opcode.
#[derive(Debug, PartialEq)]
pub struct Instruction {
    pub opcode: Opcode,
}

/// The lower-case form of an ASCII capital; every other character is itself.
pub open spec fn lower_char(c: char) -> char {
    if 'A' <= c && c <= 'Z' {
        ((c as u8 + 32) as u8) as char
    } else {
        c
    }
}

/// A text with each of its characters in lower case.
pub open spec fn lower(s: Seq<char>) -> Seq<char> {
    Seq::new(s.len(), |i: int| lower_char(s[i]))
}

/// The first opcode at or after the code `from` whose mnemonic is `name`;
/// `IGL` where there is none.
pub open spec fn lookup_from(name: Seq<char>, from: u8) -> Opcode
    decreases LEGAL_OPCODES - from,
{
    if from >= LEGAL_OPCODES {
        Opcode::IGL
    } else if Opcode::of_code(from).mnemonic() == name {
        Opcode::of_code(from)
    } else {
        lookup_from(name, (from + 1) as u8)
    }
}

impl Opcode {
    /// The numeric code of an opcode.
    pub open spec fn spec_code(self) -> u8 {
        match self {
            Opcode::NOP => 0,
            Opcode::HLT => 1,
            Opcode::LOAD => 2,
            Opcode::ADD => 3,
            Opcode::SUB => 4,
            Opcode::MUL => 5,
            Opcode::DIV => 6,
            Opcode::INC => 7,
            Opcode::DEC => 8,
            Opcode::NEG => 9,
            Opcode::MOV => 10,
            Opcode::JMP => 11,
            Opcode::JMPB => 12,
            Opcode::JMPF => 13,
            Opcode::EQ => 14,
            Opcode::NEQ => 15,
            Opcode::GT => 16,
            Opcode::LT => 17,
            Opcode::GEQ => 18,
            Opcode::LEQ => 19,
            Opcode::JEQ => 20,
            Opcode::JNE => 21,
            Opcode::AND => 22,
            Opcode::OR => 23,
            Opcode::NOT => 24,
            Opcode::ALOC => 25,
            Opcode::PRTS => 26,
            Opcode::IGL => 27,
        }
    }

    /// The opcode that a byte decodes to: the one with that code, and `IGL`
    /// for every byte that is the code of none.
    pub open spec fn of_code(b: u8) -> Opcode {
        if b == 0 {
            Opcode::NOP
        } else if b == 1 {
            Opcode::HLT
        } else if b == 2 {
            Opcode::LOAD
        } else if b == 3 {
            Opcode::ADD
        } else if b == 4 {
            Opcode::SUB
        } else if b == 5 {
            Opcode::MUL
        } else if b == 6 {
            Opcode::DIV
        } else if b == 7 {
            Opcode::INC
        } else if b == 8 {
            Opcode::DEC
        } else if b == 9 {
            Opcode::NEG
        } else if b == 10 {
            Opcode::MOV
        } else if b == 11 {
            Opcode::JMP
        } else if b == 12 {
            Opcode::JMPB
        } else if b == 13 {
            Opcode::JMPF
        } else if b == 14 {
            Opcode::EQ
        } else if b == 15 {
            Opcode::NEQ
        } else if b == 16 {
            Opcode::GT
        } else if b == 17 {
            Opcode::LT
        } else if b == 18 {
            Opcode::GEQ
        } else if b == 19 {
            Opcode::LEQ
        } else if b == 20 {
            Opcode::JEQ
        } else if b == 21 {
            Opcode::JNE
        } else if b == 22 {
            Opcode::AND
        } else if b == 23 {
            Opcode::OR
        } else if b == 24 {
            Opcode::NOT
        } else if b == 25 {
            Opcode::ALOC
        } else if b == 26 {
            Opcode::PRTS
        } else {
            Opcode::IGL
        }
    }

    /// The name of an opcode as it is written in listings.
    pub open spec fn spec_name(self) -> Seq<char> {
        match self {
            Opcode::NOP => "NOP"@,
            Opcode::HLT => "HLT"@,
            Opcode::LOAD => "LOAD"@,
            Opcode::ADD => "ADD"@,
            Opcode::SUB => "SUB"@,
            Opcode::MUL => "MUL"@,
            Opcode::DIV => "DIV"@,
            Opcode::INC => "INC"@,
            Opcode::DEC => "DEC"@,
            Opcode::NEG => "NEG"@,
            Opcode::MOV => "MOV"@,
            Opcode::JMP => "JMP"@,
            Opcode::JMPB => "JMPB"@,
            Opcode::JMPF => "JMPF"@,
            Opcode::EQ => "EQ"@,
            Opcode::NEQ => "NEQ"@,
            Opcode::GT => "GT"@,
            Opcode::LT => "LT"@,
            Opcode::GEQ => "GEQ"@,
            Opcode::LEQ => "LEQ"@,
            Opcode::JEQ => "JEQ"@,
            Opcode::JNE => "JNE"@,
            Opcode::AND => "AND"@,
            Opcode::OR => "OR"@,
            Opcode::NOT => "NOT"@,
            Opcode::ALOC => "ALOC"@,
            Opcode::PRTS => "PRTS"@,
            Opcode::IGL => "IGL"@,
        }
    }

    /// The mnemonic by which source text names an opcode.
    pub open spec fn mnemonic(self) -> Seq<char> {
        match self {
            Opcode::NOP => "nop"@,
            Opcode::HLT => "hlt"@,
            Opcode::LOAD => "load"@,
            Opcode::ADD => "add"@,
            Opcode::SUB => "sub"@,
            Opcode::MUL => "mul"@,
            Opcode::DIV => "div"@,
            Opcode::INC => "inc"@,
            Opcode::DEC => "dec"@,
            Opcode::NEG => "neg"@,
            Opcode::MOV => "mov"@,
            Opcode::JMP => "jmp"@,
            Opcode::JMPB => "jmpb"@,
            Opcode::JMPF => "jmpf"@,
            Opcode::EQ => "eq"@,
            Opcode::NEQ => "neq"@,
            Opcode::GT => "gt"@,
            Opcode::LT => "lt"@,
            Opcode::GEQ => "geq"@,
            Opcode::LEQ => "leq"@,
            Opcode::JEQ => "jeq"@,
            Opcode::JNE => "jne"@,
            Opcode::AND => "and"@,
            Opcode::OR => "or"@,
            Opcode::NOT => "not"@,
            Opcode::ALOC => "aloc"@,
            Opcode::PRTS => "prts"@,
            Opcode::IGL => "igl"@,
        }
    }

    /// The opcode that a word of source text names: the first opcode, in
    /// the order of the codes, whose mnemonic is the word in lower case, and
    /// `IGL` where no instruction has that mnemonic.
    pub open spec fn of_name(name: Seq<char>) -> Opcode {
        lookup_from(lower(name), 0)
    }

    /// The numeric code of an opcode.
    #[verifier::when_used_as_spec(spec_code)]
    pub fn code(self) -> (b: u8)
        ensures
            b == self.spec_code(),
            Opcode::of_code(b) == self,
    {
        match self {
            Opcode::NOP => 0,
            Opcode::HLT => 1,
            Opcode::LOAD => 2,
            Opcode::ADD => 3,
            Opcode::SUB => 4,
            Opcode::MUL => 5,
            Opcode::DIV => 6,
            Opcode::INC => 7,
            Opcode::DEC => 8,
            Opcode::NEG => 9,
            Opcode::MOV => 10,
            Opcode::JMP => 11,
            Opcode::JMPB => 12,
            Opcode::JMPF => 13,
            Opcode::EQ => 14,
            Opcode::NEQ => 15,
            Opcode::GT => 16,
            Opcode::LT => 17,
            Opcode::GEQ => 18,
            Opcode::LEQ => 19,
            Opcode::JEQ => 20,
            Opcode::JNE => 21,
            Opcode::AND => 22,
            Opcode::OR => 23,
            Opcode::NOT => 24,
            Opcode::ALOC => 25,
            Opcode::PRTS => 26,
            Opcode::IGL => 27,
        }
    }

    /// The name of an opcode as it is written in listings.
    pub fn name(self) -> (s: String)
        ensures
            s@ == self.spec_name(),
    {
        match self {
            Opcode::NOP => String::from_str("NOP"),
            Opcode::HLT => String::from_str("HLT"),
            Opcode::LOAD => String::from_str("LOAD"),
            Opcode::ADD => String::from_str("ADD"),
            Opcode::SUB => String::from_str("SUB"),
            Opcode::MUL => String::from_str("MUL"),
            Opcode::DIV => String::from_str("DIV"),
            Opcode::INC => String::from_str("INC"),
            Opcode::DEC => String::from_str("DEC"),
            Opcode::NEG => String::from_str("NEG"),
            Opcode::MOV => String::from_str("MOV"),
            Opcode::JMP => String::from_str("JMP"),
            Opcode::JMPB => String::from_str("JMPB"),
            Opcode::JMPF => String::from_str("JMPF"),
            Opcode::EQ => String::from_str("EQ"),
            Opcode::NEQ => String::from_str("NEQ"),
            Opcode::GT => String::from_str("GT"),
            Opcode::LT => String::from_str("LT"),
            Opcode::GEQ => String::from_str("GEQ"),
            Opcode::LEQ => String::from_str("LEQ"),
            Opcode::JEQ => String::from_str("JEQ"),
            Opcode::JNE => String::from_str("JNE"),
            Opcode::AND => String::from_str("AND"),
            Opcode::OR => String::from_str("OR"),
            Opcode::NOT => String::from_str("NOT"),
            Opcode::ALOC => String::from_str("ALOC"),
            Opcode::PRTS => String::from_str("PRTS"),
            Opcode::IGL => String::from_str("IGL"),
        }
    }

    /// The mnemonic of an opcode, as an owned text.
    fn mnemonic_text(self) -> (s: String)
        ensures
            s@ == self.mnemonic(),
    {
        match self {
            Opcode::NOP => String::from_str("nop"),
            Opcode::HLT => String::from_str("hlt"),
            Opcode::LOAD => String::from_str("load"),
            Opcode::ADD => String::from_str("add"),
            Opcode::SUB => String::from_str("sub"),
            Opcode::MUL => String::from_str("mul"),
            Opcode::DIV => String::from_str("div"),
            Opcode::INC => String::from_str("inc"),
            Opcode::DEC => String::from_str("dec"),
            Opcode::NEG => String::from_str("neg"),
            Opcode::MOV => String::from_str("mov"),
            Opcode::JMP => String::from_str("jmp"),
            Opcode::JMPB => String::from_str("jmpb"),
            Opcode::JMPF => String::from_str("jmpf"),
            Opcode::EQ => String::from_str("eq"),
            Opcode::NEQ => String::from_str("neq"),
            Opcode::GT => String::from_str("gt"),
            Opcode::LT => String::from_str("lt"),
            Opcode::GEQ => String::from_str("geq"),
            Opcode::LEQ => String::from_str("leq"),
            Opcode::JEQ => String::from_str("jeq"),
            Opcode::JNE => String::from_str("jne"),
            Opcode::AND => String::from_str("and"),
            Opcode::OR => String::from_str("or"),
            Opcode::NOT => String::from_str("not"),
            Opcode::ALOC => String::from_str("aloc"),
            Opcode::PRTS => String::from_str("prts"),
            Opcode::IGL => String::from_str("igl"),
        }
    }

    /// Looks a word up in the table of mnemonics, whatever the case of its
    /// letters.
    pub fn from_chars(word: &[char]) -> (op: Opcode)
        ensures
            op == Opcode::of_name(word@),
    {
        let wanted = lower_text(word);
        let mut b: u8 = 0;
        while b < LEGAL_OPCODES
            invariant
                b <= LEGAL_OPCODES,
                wanted@ == lower(word@),
                lookup_from(wanted@, 0) == lookup_from(wanted@, b),
            decreases LEGAL_OPCODES - b,
        {
            let candidate = Opcode::from(b);
            let text = candidate.mnemonic_text();
            if text == wanted {
                return candidate;
            }
            b += 1;
        }
        Opcode::IGL
    }
}

/// The lower-case form of an ASCII capital; every other character is itself.
pub fn to_lower_char(c: char) -> (l: char)
    ensures
        l == lower_char(c),
{
    if 'A' <= c && c <= 'Z' {
        let b: u8 = c as u8;
        (b + 32) as char
    } else {
        c
    }
}

/// `std::string::String::push` appends one character to the text.
pub assume_specification[ std::string::String::push ](s: &mut std::string::String, c: char)
    ensures
        final(s)@ == old(s)@.push(c),
;

/// A word in lower case, as an owned text.
fn lower_text(word: &[char]) -> (s: String)
    ensures
        s@ == lower(word@),
{
    let mut s = String::new();
    let mut i: usize = 0;
    while i < word.len()
        invariant
            i <= word.len(),
            s@ == lower(word@).take(i as int),
        decreases word.len() - i,
    {
        s.push(to_lower_char(word[i]));
        assert(lower(word@).take(i + 1) =~= lower(word@).take(i as int).push(
            lower_char(word@[i as int]),
        ));
        i += 1;
    }
    assert(lower(word@).take(word.len() as int) =~= lower(word@));
    s
}

/// The characters of a text, in order.
pub fn chars_of(s: &str) -> (v: Vec<char>)
    ensures
        v@ == s@,
{
    broadcast use vstd::string::group_string_axioms;

    let mut v: Vec<char> = Vec::new();
    for c in it: s.chars()
        invariant
            it.seq() == s@,
            v@ == s@.take(it.index() as int),
    {
        v.push(c);
        assert(s@.take(it.index() + 1) =~= s@.take(it.index() as int).push(c));
    }
    assert(s@.take(s@.len() as int) =~= s@);
    v
}

impl Instruction {
    /// The instruction of an opcode.
    pub fn new(opcode: Opcode) -> (i: Instruction)
        ensures
            i.opcode == opcode,
    {
        Instruction { opcode: opcode }
    }
}

impl From<u8> for Opcode {
    fn from(v: u8) -> (op: Opcode) {
        if v == 0 {
            Opcode::NOP
        } else if v == 1 {
            Opcode::HLT
        } else if v == 2 {
            Opcode::LOAD
        } else if v == 3 {
            Opcode::ADD
        } else if v == 4 {
            Opcode::SUB
        } else if v == 5 {
            Opcode::MUL
        } else if v == 6 {
            Opcode::DIV
        } else if v == 7 {
            Opcode::INC
        } else if v == 8 {
            Opcode::DEC
        } else if v == 9 {
            Opcode::NEG
        } else if v == 10 {
            Opcode::MOV
        } else if v == 11 {
            Opcode::JMP
        } else if v == 12 {
            Opcode::JMPB
        } else if v == 13 {
            Opcode::JMPF
        } else if v == 14 {
            Opcode::EQ
        } else if v == 15 {
            Opcode::NEQ
        } else if v == 16 {
            Opcode::GT
        } else if v == 17 {
            Opcode::LT
        } else if v == 18 {
            Opcode::GEQ
        } else if v == 19 {
            Opcode::LEQ
        } else if v == 20 {
            Opcode::JEQ
        } else if v == 21 {
            Opcode::JNE
        } else if v == 22 {
            Opcode::AND
        } else if v == 23 {
            Opcode::OR
        } else if v == 24 {
            Opcode::NOT
        } else if v == 25 {
            Opcode::ALOC
        } else if v == 26 {
            Opcode::PRTS
        } else {
            Opcode::IGL
        }
    }
}

impl FromSpecImpl<u8> for Opcode {
    open spec fn obeys_from_spec() -> bool {
        true
    }

    open spec fn from_spec(v: u8) -> Opcode {
        Opcode::of_code(v)
    }
}

impl<'a> From<&'a str> for Opcode {
    fn from(v: &'a str) -> (op: Opcode) {
        let word = chars_of(v);
        Opcode::from_chars(word.as_slice())
    }
}

impl<'a> FromSpecImpl<&'a str> for Opcode {
    open spec fn obeys_from_spec() -> bool {
        true
    }

    open spec fn from_spec(v: &'a str) -> Opcode {
        Opcode::of_name(v@)
    }
}

/// The length of a mnemonic with its first, its second and its last
/// letter: enough to tell any two mnemonics apart.
pub open spec fn mark(s: Seq<char>) -> (nat, char, char, char) {
    (s.len(), s[0], s[1], s.last())
}

/// The mark of the mnemonic of each opcode.
pub open spec fn mark_of(op: Opcode) -> (nat, char, char, char) {
    match op {
        Opcode::NOP => (3, 'n', 'o', 'p'),
        Opcode::HLT => (3, 'h', 'l', 't'),
        Opcode::LOAD => (4, 'l', 'o', 'd'),
        Opcode::ADD => (3, 'a', 'd', 'd'),
        Opcode::SUB => (3, 's', 'u', 'b'),
        Opcode::MUL => (3, 'm', 'u', 'l'),
        Opcode::DIV => (3, 'd', 'i', 'v'),
        Opcode::INC => (3, 'i', 'n', 'c'),
        Opcode::DEC => (3, 'd', 'e', 'c'),
        Opcode::NEG => (3, 'n', 'e', 'g'),
        Opcode::MOV => (3, 'm', 'o', 'v'),
        Opcode::JMP => (3, 'j', 'm', 'p'),
        Opcode::JMPB => (4, 'j', 'm', 'b'),
        Opcode::JMPF => (4, 'j', 'm', 'f'),
        Opcode::EQ => (2, 'e', 'q', 'q'),
        Opcode::NEQ => (3, 'n', 'e', 'q'),
        Opcode::GT => (2, 'g', 't', 't'),
        Opcode::LT => (2, 'l', 't', 't'),
        Opcode::GEQ => (3, 'g', 'e', 'q'),
        Opcode::LEQ => (3, 'l', 'e', 'q'),
        Opcode::JEQ => (3, 'j', 'e', 'q'),
        Opcode::JNE => (3, 'j', 'n', 'e'),
        Opcode::AND => (3, 'a', 'n', 'd'),
        Opcode::OR => (2, 'o', 'r', 'r'),
        Opcode::NOT => (3, 'n', 'o', 't'),
        Opcode::ALOC => (4, 'a', 'l', 'c'),
        Opcode::PRTS => (4, 'p', 'r', 's'),
        Opcode::IGL => (3, 'i', 'g', 'l'),
    }
}

/// Each mnemonic has the mark that the table gives for it and is written
/// in lower-case letters.
proof fn lemma_mnemonics(op: Opcode)
    ensures
        mark(op.mnemonic()) == mark_of(op),
        lower(op.mnemonic()) == op.mnemonic(),
{
    reveal_strlit("nop");
    reveal_strlit("hlt");
    reveal_strlit("load");
    reveal_strlit("add");
    reveal_strlit("sub");
    reveal_strlit("mul");
    reveal_strlit("div");
    reveal_strlit("inc");
    reveal_strlit("dec");
    reveal_strlit("neg");
    reveal_strlit("mov");
    reveal_strlit("jmp");
    reveal_strlit("jmpb");
    reveal_strlit("jmpf");
    reveal_strlit("eq");
    reveal_strlit("neq");
    reveal_strlit("gt");
    reveal_strlit("lt");
    reveal_strlit("geq");
    reveal_strlit("leq");
    reveal_strlit("jeq");
    reveal_strlit("jne");
    reveal_strlit("and");
    reveal_strlit("or");
    reveal_strlit("not");
    reveal_strlit("aloc");
    reveal_strlit("prts");
    reveal_strlit("igl");
    let m = op.mnemonic();
    assert(2 <= m.len() <= 4);
    assert(forall|i: int| 0 <= i < m.len() ==> 'a' <= #[trigger] m[i] <= 'z');
    assert(lower(m) =~= m);
}

/// The lookup of a mnemonic from any code up to that of its opcode finds
/// the opcode: no other opcode has the mnemonic.
proof fn lemma_lookup(op: Opcode, from: u8)
    requires
        op != Opcode::IGL,
        from <= op.spec_code(),
    ensures
        lookup_from(op.mnemonic(), from) == op,
    decreases op.spec_code() - from,
{
    if from < op.spec_code() {
        lemma_mnemonics(op);
        lemma_mnemonics(Opcode::of_code(from));
        lemma_lookup(op, (from + 1) as u8);
    }
}

/// The three mappings of the table agree: a byte decodes to the opcode
/// that has it as its code, and to `IGL` where no opcode has; the code of
/// an opcode decodes to the opcode; and the mnemonic of an instruction, and
/// its name in a listing, are looked up as the instruction.
pub proof fn law_table_round_trips(op: Opcode, b: u8)
    ensures
        Opcode::of_code(op.spec_code()) == op,
        b < LEGAL_OPCODES ==> Opcode::of_code(b).spec_code() == b,
        b >= LEGAL_OPCODES ==> Opcode::of_code(b) == Opcode::IGL,
        op != Opcode::IGL ==> Opcode::of_name(op.mnemonic()) == op,
        op != Opcode::IGL ==> Opcode::of_name(op.spec_name()) == op,
{
    if op != Opcode::IGL {
        lemma_mnemonics(op);
        lemma_lookup(op, 0);
        lemma_names_in_lower_case(op);
    }
}

/// The name of an opcode in a listing is its mnemonic in capitals.
proof fn lemma_names_in_lower_case(op: Opcode)
    ensures
        lower(op.spec_name()) == op.mnemonic(),
{
    reveal_strlit("nop");
    reveal_strlit("hlt");
    reveal_strlit("load");
    reveal_strlit("add");
    reveal_strlit("sub");
    reveal_strlit("mul");
    reveal_strlit("div");
    reveal_strlit("inc");
    reveal_strlit("dec");
    reveal_strlit("neg");
    reveal_strlit("mov");
    reveal_strlit("jmp");
    reveal_strlit("jmpb");
    reveal_strlit("jmpf");
    reveal_strlit("eq");
    reveal_strlit("neq");
    reveal_strlit("gt");
    reveal_strlit("lt");
    reveal_strlit("geq");
    reveal_strlit("leq");
    reveal_strlit("jeq");
    reveal_strlit("jne");
    reveal_strlit("and");
    reveal_strlit("or");
    reveal_strlit("not");
    reveal_strlit("aloc");
    reveal_strlit("prts");
    reveal_strlit("igl");
    reveal_strlit("NOP");
    reveal_strlit("HLT");
    reveal_strlit("LOAD");
    reveal_strlit("ADD");
    reveal_strlit("SUB");
    reveal_strlit("MUL");
    reveal_strlit("DIV");
    reveal_strlit("INC");
    reveal_strlit("DEC");
    reveal_strlit("NEG");
    reveal_strlit("MOV");
    reveal_strlit("JMP");
    reveal_strlit("JMPB");
    reveal_strlit("JMPF");
    reveal_strlit("EQ");
    reveal_strlit("NEQ");
    reveal_strlit("GT");
    reveal_strlit("LT");
    reveal_strlit("GEQ");
    reveal_strlit("LEQ");
    reveal_strlit("JEQ");
    reveal_strlit("JNE");
    reveal_strlit("AND");
    reveal_strlit("OR");
    reveal_strlit("NOT");
    reveal_strlit("ALOC");
    reveal_strlit("PRTS");
    reveal_strlit("IGL");
    let n = op.spec_name();
    let m = op.mnemonic();
    assert(n.len() == m.len());
    assert(forall|i: int| 0 <= i < n.len() ==> lower_char(#[trigger] n[i]) == m[i]);
    assert(lower(n) =~= m);
}

} // verus!
