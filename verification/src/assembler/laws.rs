//! Laws of the assembler, stated over [`AssemblerModel`] and the encoding
//! of lines, and proved from their definitions.

use crate::assembler::parser_instruction::InstructionModel;
use crate::assembler::parser_program::{lemma_lines_bound, spec_program};
use crate::assembler::{
    code_of, has_name, lemma_all_lines_have_opcodes, lemma_value_of_has_name, pie_header, value_of,
    with_offset, AssemblerModel, AssemblerPhase, Refusal, SymbolModel, SymbolType, MAX_LINES,
};
use vstd::prelude::*;
use vstd::utf8::encode_utf8;

verus! {

/// Number of lines of a program that have an opcode.
pub open spec fn opcode_lines(lines: Seq<InstructionModel>) -> nat
    decreases lines.len(),
{
    if lines.len() == 0 {
        0
    } else if lines.last().has_opcode() {
        opcode_lines(lines.drop_last()) + 1
    } else {
        opcode_lines(lines.drop_last())
    }
}

/// The name is declared on no line but line `i`.
pub open spec fn declared_once(lines: Seq<InstructionModel>, i: int, name: Seq<char>) -> bool {
    forall|j: int|
        0 <= j < lines.len() && j != i ==> (#[trigger] lines[j]).label_name() != Some(name)
}

/// Every instruction is four bytes: the encoding of a line has that
/// length, and starts with the code of the opcode of the line.
pub proof fn law_line_is_four_bytes(line: InstructionModel, symbols: Seq<SymbolModel>)
    ensures
        line.bytes(symbols).len() == 4,
        line.bytes(symbols)[0] == line.code().code(),
{
}

/// The code of a program is four bytes for each line that has an opcode,
/// and nothing for the other lines: its length is a multiple of four.
pub proof fn law_code_length(lines: Seq<InstructionModel>, symbols: Seq<SymbolModel>)
    ensures
        code_of(lines, symbols).len() == 4 * opcode_lines(lines),
        code_of(lines, symbols).len() % 4 == 0,
    decreases lines.len(),
{
    if lines.len() > 0 {
        law_code_length(lines.drop_last(), symbols);
        law_line_is_four_bytes(lines.last(), symbols);
    }
}

/// Where a text holds a program, and the first pass over it leaves no error
/// and has seen a code section, the assembly gives an image of 64 bytes and
/// four more for each line that has an opcode, and the image starts with
/// the header.
pub proof fn law_image_length(a: AssemblerModel, raw: Seq<char>)
    requires
        spec_program(raw) is Some,
        a.first_phase(spec_program(raw).unwrap().0).ready(),
    ensures
        a.assembled(raw).1 is Ok,
        a.assembled(raw).1->Ok_0.len() == 64 + 4 * opcode_lines(spec_program(raw).unwrap().0),
        a.assembled(raw).1->Ok_0.take(64) == pie_header(),
{
    let lines = spec_program(raw).unwrap().0;
    let after = a.first_phase(lines);
    law_code_length(lines, after.symbols);
    let image = pie_header() + code_of(lines, after.symbols);
    assert(pie_header().len() == 64);
    assert(image.take(64) =~= pie_header());
}

/// A text of no more than `MAX_LINES` characters is not refused for the
/// number of its lines.
pub proof fn law_short_texts_fit(a: AssemblerModel, raw: Seq<char>)
    requires
        raw.len() <= MAX_LINES,
    ensures
        a.refusal(raw) != Some(Refusal::TooManyLines),
        a.tried(raw) == a.assembled(raw).0,
{
    lemma_lines_bound(raw);
    if let Some((lines, _)) = spec_program(raw) {
        crate::assembler::lemma_first_defect(lines, a.first_phase(lines).symbols);
    }
}

/// What an assembly gives, and the state that it leaves, depend on nothing
/// but the state of the assembler before it and the text: two assemblers
/// in the same state, such as two new ones, give the same for the same
/// text.
pub proof fn law_assembly_is_pure(a: AssemblerModel, b: AssemblerModel, raw: Seq<char>)
    requires
        a == b,
    ensures
        a.assembled(raw) == b.assembled(raw),
        a.refusal(raw) == b.refusal(raw),
        a.tried(raw) == b.tried(raw),
        a == AssemblerModel::fresh() ==> a.assembled(raw) == AssemblerModel::fresh().assembled(
            raw,
        ),
{
}

/// Appending a symbol of another name leaves the value of a name alone.
pub proof fn lemma_value_after_push(symbols: Seq<SymbolModel>, s: SymbolModel, name: Seq<char>)
    ensures
        value_of(symbols.push(s), name) == if value_of(symbols, name) is Some {
            value_of(symbols, name)
        } else if s.name == name {
            Some(s.offset)
        } else {
            None
        },
    decreases symbols.len(),
{
    if symbols.len() == 0 {
        assert(symbols.push(s).drop_first() =~= symbols);
    } else {
        assert(symbols.push(s).drop_first() =~= symbols.drop_first().push(s));
        lemma_value_after_push(symbols.drop_first(), s, name);
    }
}

/// Replacing the offset of another name leaves the value of a name alone.
pub proof fn lemma_value_after_offset(
    symbols: Seq<SymbolModel>,
    other: Seq<char>,
    offset: u32,
    name: Seq<char>,
)
    requires
        other != name,
    ensures
        value_of(with_offset(symbols, other, offset), name) == value_of(symbols, name),
    decreases symbols.len(),
{
    if symbols.len() > 0 {
        assert(with_offset(symbols, other, offset).drop_first() =~= with_offset(
            symbols.drop_first(),
            other,
            offset,
        ));
        lemma_value_after_offset(symbols.drop_first(), other, offset, name);
    }
}

/// The first pass over a line that declares another name, or none, leaves
/// the value of a name alone.
pub proof fn lemma_value_after_line(
    a: AssemblerModel,
    line: InstructionModel,
    idx: nat,
    name: Seq<char>,
)
    requires
        line.label_name() != Some(name),
    ensures
        value_of(a.declared(line, idx).directed(line, idx).symbols, name) == value_of(
            a.symbols,
            name,
        ),
{
    let b = a.declared(line, idx);
    match line.label_name() {
        Some(label) => {
            lemma_value_after_push(
                a.symbols,
                SymbolModel { name: label, offset: (idx * 4) as u32, kind: SymbolType::Label },
                name,
            );
            lemma_value_after_offset(b.symbols, label, (b.ro.len() % 0x1_0000_0000) as u32, name);
        },
        None => {},
    }
}

/// The value of a name that line `i` declares stays what that line gave it
/// over the lines that follow, none of which declares the name.
proof fn lemma_value_kept(
    a: AssemblerModel,
    lines: Seq<InstructionModel>,
    i: int,
    name: Seq<char>,
    n: nat,
)
    requires
        0 <= i < n <= lines.len(),
        declared_once(lines, i, name),
    ensures
        value_of(a.scanned(lines, n).symbols, name) == value_of(
            a.scanned(lines, (i + 1) as nat).symbols,
            name,
        ),
    decreases n,
{
    if n > i + 1 {
        lemma_value_kept(a, lines, i, name, (n - 1) as nat);
        lemma_value_after_line(a.scanned(lines, (n - 1) as nat), lines[n - 1], (n - 1) as nat, name);
    }
}

/// A label that line `i` declares has four times `i` as its value after
/// the first pass, where the line stands in a section, declares a name
/// that is declared nowhere else and that the table did not hold, and is
/// no directive line.
pub proof fn law_label_offset(
    a: AssemblerModel,
    lines: Seq<InstructionModel>,
    i: int,
    name: Seq<char>,
)
    requires
        0 <= i < lines.len() <= MAX_LINES,
        lines[i].label_name() == Some(name),
        lines[i].directive_name() is None,
        declared_once(lines, i, name),
        a.scanned(lines, i as nat).current_section is Some,
        !has_name(a.scanned(lines, i as nat).symbols, name),
    ensures
        value_of(a.first_phase(lines).symbols, name) == Some((4 * i) as u32),
{
    let before = a.scanned(lines, i as nat);
    lemma_value_of_has_name(before.symbols, name);
    lemma_value_after_push(
        before.symbols,
        SymbolModel { name: name, offset: (i * 4) as u32, kind: SymbolType::Label },
        name,
    );
    assert(a.scanned(lines, (i + 1) as nat) == before.declared(lines[i], i as nat).directed(
        lines[i],
        i as nat,
    ));
    lemma_value_kept(a, lines, i, name, lines.len());
}

/// The first pass over lines that have an opcode and no directive starts
/// no section and ends none, and enters no name into the table but those
/// that these lines declare.
proof fn lemma_code_lines_scanned(
    a: AssemblerModel,
    lines: Seq<InstructionModel>,
    name: Seq<char>,
    n: nat,
)
    requires
        n <= lines.len(),
        forall|j: int| 0 <= j < n ==> (#[trigger] lines[j]).directive_name() is None,
        forall|j: int| 0 <= j < n ==> (#[trigger] lines[j]).label_name() != Some(name),
        !has_name(a.symbols, name),
    ensures
        a.scanned(lines, n).current_section == a.current_section,
        !has_name(a.scanned(lines, n).symbols, name),
    decreases n,
{
    if n > 0 {
        lemma_code_lines_scanned(a, lines, name, (n - 1) as nat);
        let before = a.scanned(lines, (n - 1) as nat);
        lemma_value_of_has_name(before.symbols, name);
        lemma_value_after_line(before, lines[n - 1], (n - 1) as nat, name);
        lemma_value_of_has_name(a.scanned(lines, n).symbols, name);
    }
}

/// A label that is declared in code has four times its index among the
/// lines that produce code as its value: this holds of a label on line
/// `i` of a program whose lines before it all have an opcode and no
/// directive, assembled by an assembler that is in a section and whose
/// table does not hold the name, where the name is declared once.
pub proof fn law_code_label_offset(
    a: AssemblerModel,
    lines: Seq<InstructionModel>,
    i: int,
    name: Seq<char>,
)
    requires
        0 <= i < lines.len() <= MAX_LINES,
        lines[i].label_name() == Some(name),
        lines[i].directive_name() is None,
        declared_once(lines, i, name),
        forall|j: int|
            0 <= j < i ==> (#[trigger] lines[j]).has_opcode() && lines[j].directive_name() is None,
        a.current_section is Some,
        !has_name(a.symbols, name),
    ensures
        value_of(a.first_phase(lines).symbols, name) == Some(
            (4 * opcode_lines(lines.take(i))) as u32,
        ),
{
    lemma_code_lines_scanned(a, lines, name, i as nat);
    law_label_offset(a, lines, i, name);
    assert forall|j: int| 0 <= j < lines.take(i).len() implies (#[trigger] lines.take(
        i,
    )[j]).has_opcode() by {
        assert(lines.take(i)[j] == lines[j]);
    }
    lemma_all_lines_have_opcodes(lines.take(i));
}

/// No two symbols of the table have the same name.
pub open spec fn unique_names(symbols: Seq<SymbolModel>) -> bool {
    forall|i: int, j: int|
        0 <= i < j < symbols.len() ==> (#[trigger] symbols[i]).name != (#[trigger] symbols[j]).name
}

/// The first pass over one line keeps the names of a table apart.
proof fn lemma_line_keeps_names_apart(a: AssemblerModel, line: InstructionModel, idx: nat)
    requires
        unique_names(a.symbols),
    ensures
        unique_names(a.declared(line, idx).directed(line, idx).symbols),
{
    let b = a.declared(line, idx);
    assert(unique_names(b.symbols)) by {
        match line.label_name() {
            Some(name) => {
                if a.current_section is Some && !has_name(a.symbols, name) {
                    assert forall|i: int, j: int| 0 <= i < j < b.symbols.len() implies (
                    #[trigger] b.symbols[i]).name != (#[trigger] b.symbols[j]).name by {
                        if j == a.symbols.len() {
                            assert(a.symbols[i].name != name);
                        }
                    }
                }
            },
            None => {},
        }
    }
    let c = b.directed(line, idx);
    assert forall|i: int, j: int| 0 <= i < j < c.symbols.len() implies (
    #[trigger] c.symbols[i]).name != (#[trigger] c.symbols[j]).name by {
        assert(c.symbols.len() == b.symbols.len());
        assert(c.symbols[i].name == b.symbols[i].name);
        assert(c.symbols[j].name == b.symbols[j].name);
    }
}

/// The first pass over the first `n` lines keeps the names of a table
/// apart.
proof fn lemma_scan_keeps_names_apart(a: AssemblerModel, lines: Seq<InstructionModel>, n: nat)
    requires
        unique_names(a.symbols),
    ensures
        unique_names(a.scanned(lines, n).symbols),
    decreases n,
{
    if n > 0 {
        lemma_scan_keeps_names_apart(a, lines, (n - 1) as nat);
        lemma_line_keeps_names_apart(a.scanned(lines, (n - 1) as nat), lines[n - 1], (n - 1) as nat);
    }
}

/// A name stands in the table at most once: the first pass enters no name
/// twice, whatever the program declares, so a table whose names differ,
/// such as that of a new assembler, is left as one.
pub proof fn law_names_stay_unique(a: AssemblerModel, lines: Seq<InstructionModel>)
    requires
        unique_names(a.symbols),
    ensures
        unique_names(a.first_phase(lines).symbols),
        unique_names(AssemblerModel::fresh().first_phase(lines).symbols),
{
    lemma_scan_keeps_names_apart(a, lines, lines.len());
    lemma_scan_keeps_names_apart(AssemblerModel::fresh(), lines, lines.len());
}

/// Replacing the offset of a name that the table holds gives the name that
/// offset as its value.
pub proof fn lemma_value_of_moved(symbols: Seq<SymbolModel>, name: Seq<char>, offset: u32)
    requires
        has_name(symbols, name),
    ensures
        value_of(with_offset(symbols, name, offset), name) == Some(offset),
    decreases symbols.len(),
{
    lemma_value_of_has_name(symbols, name);
    if symbols.len() > 0 && symbols[0].name != name {
        assert(with_offset(symbols, name, offset).drop_first() =~= with_offset(
            symbols.drop_first(),
            name,
            offset,
        ));
        lemma_value_of_has_name(symbols.drop_first(), name);
        lemma_value_of_moved(symbols.drop_first(), name, offset);
    }
}

/// `asciiz` in the first pass binds the label of its line to the place
/// where its string starts in the read-only data, and the data holds there
/// the bytes of the string and a zero byte behind them; what the data held
/// before stays.
pub proof fn law_string_is_stored(a: AssemblerModel, line: InstructionModel)
    requires
        a.phase == AssemblerPhase::First,
        a.ro.len() < 0x1_0000_0000,
        line.operand1 is Some,
        line.operand1->Some_0 is String,
        line.label_name() is Some,
        has_name(a.symbols, line.label_name()->Some_0),
    ensures
        ({
            let text = line.operand1->Some_0->String_name;
            let label = line.label_name()->Some_0;
            let after = a.with_string(line);
            &&& value_of(after.symbols, label) == Some(a.ro.len() as u32)
            &&& after.ro.len() == a.ro.len() + encode_utf8(text).len() + 1
            &&& after.ro.take(a.ro.len() as int) == a.ro
            &&& after.ro.subrange(a.ro.len() as int, after.ro.len() - 1) == encode_utf8(text)
            &&& after.ro.last() == 0
        }),
{
    let text = line.operand1->Some_0->String_name;
    let label = line.label_name()->Some_0;
    let after = a.with_string(line);
    lemma_value_of_moved(a.symbols, label, (a.ro.len() % 0x1_0000_0000) as u32);
    assert(after.ro =~= a.ro + encode_utf8(text) + seq![0u8]);
    assert(after.ro.take(a.ro.len() as int) =~= a.ro);
    assert(after.ro.subrange(a.ro.len() as int, after.ro.len() - 1) =~= encode_utf8(text));
}

/// The first pass over the first `n` lines leaves the phase as it is.
proof fn lemma_scan_keeps_phase(a: AssemblerModel, lines: Seq<InstructionModel>, n: nat)
    ensures
        a.scanned(lines, n).phase == a.phase,
        a.phase != AssemblerPhase::First ==> a.scanned(lines, n).ro == a.ro,
        a.scanned(lines, n).bytecode == a.bytecode,
    decreases n,
{
    if n > 0 {
        lemma_scan_keeps_phase(a, lines, (n - 1) as nat);
    }
}

/// The read-only data is written in the first phase only: an assembler
/// that has reached the second phase stays in it, and a pass over another
/// program leaves its data as they are.
pub proof fn law_second_phase_keeps_data(a: AssemblerModel, lines: Seq<InstructionModel>)
    ensures
        a.first_phase(lines).phase == AssemblerPhase::Second,
        a.phase == AssemblerPhase::Second ==> a.first_phase(lines).ro == a.ro,
        a.first_phase(lines).first_phase(lines).ro == a.first_phase(lines).ro,
{
    lemma_scan_keeps_phase(a, lines, lines.len());
    lemma_scan_keeps_phase(a.first_phase(lines), lines, lines.len());
}

} // verus!
