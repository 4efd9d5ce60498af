//! Laws of the interpreter, stated over [`Machine`] and proved from the
//! definitions of [`Machine::step`], [`Machine::fault`] and
//! [`Machine::run`].

use crate::assembler::parser_instruction::{be16, padded, InstructionModel};
use crate::assembler::{code_of, SymbolModel, TokenModel};
use crate::instruction::Opcode;
use crate::vm::{wrap_usize, word, Fault, Machine, RunOutcome};
use vstd::prelude::*;

verus! {

/// The eight bytes of the program `LOAD r v; HLT`.
pub open spec fn load_and_halt(r: u8, v: u16) -> Seq<u8> {
    seq![
        Opcode::LOAD.code(),
        r,
        (v / 256) as u8,
        (v % 256) as u8,
        Opcode::HLT.code(),
        0u8,
        0u8,
        0u8,
    ]
}

/// The line `load $r #v`.
pub open spec fn load_line(r: u8, v: u16) -> InstructionModel {
    InstructionModel {
        opcode: Some(TokenModel::Op { code: Opcode::LOAD }),
        operand1: Some(TokenModel::Reg { reg: r }),
        operand2: Some(TokenModel::IntegerOperand { i: v as i32 }),
        operand3: None,
        label: None,
        directive: None,
    }
}

/// The line `hlt`.
pub open spec fn halt_line() -> InstructionModel {
    InstructionModel {
        opcode: Some(TokenModel::Op { code: Opcode::HLT }),
        operand1: None,
        operand2: None,
        operand3: None,
        label: None,
        directive: None,
    }
}

/// The assembler encodes the lines `load $r #v` and `hlt` as the eight
/// bytes of [`load_and_halt`], whatever symbols it holds.
pub proof fn law_load_and_halt_encoding(r: u8, v: u16, symbols: Seq<SymbolModel>)
    ensures
        code_of(seq![load_line(r, v), halt_line()], symbols) == load_and_halt(r, v),
{
    reveal_with_fuel(code_of, 3);
    let lines = seq![load_line(r, v), halt_line()];
    assert(lines.drop_last() =~= seq![load_line(r, v)]);
    assert(lines.drop_last().drop_last() =~= Seq::<InstructionModel>::empty());
    assert(be16(v as int) =~= seq![(v / 256) as u8, (v % 256) as u8]);
    let packed = seq![Opcode::LOAD.code()] + seq![r] + be16(v as int) + Seq::<u8>::empty();
    assert(packed =~= seq![Opcode::LOAD.code(), r, (v / 256) as u8, (v % 256) as u8]);
    assert(load_line(r, v).packed(symbols) =~= packed);
    assert(padded(packed) =~= packed);
    assert(load_line(r, v).bytes(symbols) =~= packed);
    let short = seq![Opcode::HLT.code()] + Seq::<u8>::empty() + Seq::<u8>::empty() + Seq::<
        u8,
    >::empty();
    assert(padded(packed) =~= packed);
    assert(padded(short) =~= seq![Opcode::HLT.code(), 0u8, 0u8, 0u8]);
    assert(halt_line().bytes(symbols) =~= seq![Opcode::HLT.code(), 0u8, 0u8, 0u8]);
    assert(code_of(lines.drop_last(), symbols) =~= load_line(r, v).bytes(symbols));
    assert(code_of(lines, symbols) =~= load_and_halt(r, v));
}

/// `LOAD` leaves in its register the 16-bit number that its two operand
/// bytes spell, high byte first: a number from 0 to 65535, never a negative
/// one, and it changes no other register.
pub proof fn law_load_is_unsigned(m: Machine)
    requires
        m.regs.len() == 32,
        !m.at_end(),
        m.opcode() == Opcode::LOAD,
        m.fault() is None,
    ensures
        m.step().regs[m.operand(1) as int] == word(m.operand(2), m.operand(3)),
        0 <= m.step().regs[m.operand(1) as int] <= 65535,
        m.operand(2) == 0xff && m.operand(3) == 0xff ==> m.step().regs[m.operand(1) as int]
            == 65535,
        forall|i: int|
            0 <= i < 32 && i != m.operand(1) ==> m.step().regs[i] == #[trigger] m.regs[i],
{
}

/// A machine that stands at `LOAD r v; HLT`, with `r` a register and `v` any
/// 16-bit number, runs to a halt in two steps and then holds `v` in
/// register `r`.
pub proof fn law_load_round_trip(m: Machine, r: u8, v: u16, steps: nat)
    requires
        m.regs.len() == 32,
        r < 32,
        m.program.len() <= usize::MAX,
        m.pc + 8 <= m.program.len(),
        m.program.subrange(m.pc as int, m.pc + 8) == load_and_halt(r, v),
        steps >= 2,
    ensures
        m.run(steps).1 == RunOutcome::Halted,
        m.run(steps).0.regs[r as int] == v,
        m.run(steps).0.pc == m.pc + 5,
{
    let code = m.program.subrange(m.pc as int, m.pc + 8);
    assert(forall|k: int| 0 <= k < 8 ==> m.program[m.pc + k] == #[trigger] code[k]);
    assert(code[0] == Opcode::LOAD.code());
    assert(code[1] == r);
    assert(code[2] == (v / 256) as u8);
    assert(code[3] == (v % 256) as u8);
    assert(code[4] == Opcode::HLT.code());
    assert(m.opcode() == Opcode::LOAD);
    assert(m.fault() is None);
    let loaded = m.step();
    assert(loaded.pc == m.pc + 4);
    assert(loaded.program == m.program);
    assert(word((v / 256) as u8, (v % 256) as u8) == v);
    assert(loaded.regs[r as int] == v);
    assert(loaded.opcode() == Opcode::HLT);
    assert(loaded.halts());
    assert(loaded.fault() is None);
    assert(m.run(steps) == loaded.run((steps - 1) as nat));
    assert(loaded.run((steps - 1) as nat) == (loaded.step(), RunOutcome::Halted));
}

/// A division by zero ends the run before the `DIV` is carried out: the
/// machine stays exactly as it stood, so no register, the remainder
/// included, is changed in part.
pub proof fn law_divide_by_zero_aborts(m: Machine, steps: nat)
    requires
        m.regs.len() == 32,
        m.pc + 3 < m.program.len(),
        m.opcode() == Opcode::DIV,
        m.operand(1) < 32,
        m.operand(2) < 32,
        m.operand(3) < 32,
        m.reg(2) == 0,
    ensures
        m.fault() == Some(Fault::DivideByZero),
        m.run(steps) == (m, RunOutcome::Faulted(Fault::DivideByZero)),
{
}

/// A machine whose program counter stands at or past the end of its
/// program halts without a fault, and the step changes nothing.
pub proof fn law_fetch_past_end_halts(m: Machine, steps: nat)
    requires
        m.at_end(),
        steps >= 1,
    ensures
        m.fault() is None,
        m.halts(),
        m.step() == m,
        m.run(steps) == (m, RunOutcome::Halted),
{
}

/// `JMP` to an address outside the program is no fault: the jump installs
/// the address, and only the next fetch, which finds no instruction there,
/// halts the machine.
pub proof fn law_jump_out_of_range(m: Machine, steps: nat)
    requires
        m.regs.len() == 32,
        m.pc + 1 < m.program.len(),
        m.opcode() == Opcode::JMP,
        m.operand(1) < 32,
        wrap_usize(m.reg(1) as int) >= m.program.len(),
        steps >= 2,
    ensures
        m.fault() is None,
        !m.halts(),
        m.step().pc == wrap_usize(m.reg(1) as int),
        m.step().fault() is None,
        m.step().halts(),
        m.run(steps) == (m.step(), RunOutcome::Halted),
{
    let jumped = m.step();
    assert(jumped.program == m.program);
    assert(jumped.at_end());
    assert(jumped.step() == jumped);
    assert(m.run(steps) == jumped.run((steps - 1) as nat));
}

} // verus!
