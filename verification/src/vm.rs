//! The interpreter: a register machine that fetches, decodes and carries
//! out four-byte instructions until it halts.
//!
//! [`Machine`] is the mathematical model of a [`VM`]; [`Machine::step`] and
//! [`Machine::run`] say what one instruction and a whole run do to it, and
//! the executable functions are proved to follow them.

use crate::instruction::Opcode;
use vstd::arithmetic::div_mod::{
    lemma_basic_div, lemma_div_decreases, lemma_div_nonincreasing, lemma_div_pos_is_pos,
    lemma_mod_bound, lemma_small_mod,
};
use vstd::prelude::*;
use vstd::slice::slice_subrange;
use vstd::utf8::*;

verus! {

/// The largest size that the heap can be given.
pub const HEAP_LIMIT: usize = 0x7fff_ffff;

/// The kind of an entry of the event log.
#[derive(Copy, Clone, Debug, PartialEq, Eq, Structural)]
pub enum VMEventType {
    Start,
    Stop,
    Crash,
}

/// `uuid::Uuid`: an identifier of a machine. Nothing inside it is read.
#[verifier::external_type_specification]
#[verifier::external_body]
pub struct ExUuid(uuid::Uuid);

/// `chrono::NaiveDateTime`: a point in time without a zone. Nothing inside
/// it is read.
#[verifier::external_type_specification]
#[verifier::external_body]
pub struct ExNaiveDateTime(chrono::NaiveDateTime);

/// `Clone::clone` of `uuid::Uuid`, a `Copy` type: the identifier itself.
pub assume_specification[ <uuid::Uuid as Clone>::clone ](id: &uuid::Uuid) -> (r: uuid::Uuid)
    ensures
        r == *id,
;

/// `Clone::clone` of `chrono::NaiveDateTime`, a `Copy` type: the same point
/// in time.
pub assume_specification[ <chrono::NaiveDateTime as Clone>::clone ](
    t: &chrono::NaiveDateTime,
) -> (r: chrono::NaiveDateTime)
    ensures
        r == *t,
;

/// `uuid::Uuid::new_v4` draws a random identifier. Nothing is claimed of
/// it.
#[verifier::external_body]
fn fresh_id() -> (id: uuid::Uuid) {
    uuid::Uuid::new_v4()
}

/// `chrono::Utc::now` reads the wall clock, and `DateTime::naive_utc` drops
/// the zone, which is UTC. Nothing is claimed of the time that comes back.
#[verifier::external_body]
fn now() -> (t: chrono::NaiveDateTime) {
    chrono::Utc::now().naive_utc()
}

/// `std::str::from_utf8` accepts exactly the byte strings that are valid
/// UTF-8, and the text it returns is the one that those bytes encode.
#[verifier::external_body]
pub(crate) fn text_of_utf8(bytes: &[u8]) -> (r: Option<String>)
    ensures
        r is Some <==> valid_utf8(bytes@),
        r matches Some(s) ==> encode_utf8(s@) == bytes@,
{
    match std::str::from_utf8(bytes) {
        Ok(s) => Some(String::from(s)),
        Err(_) => None,
    }
}

/// An entry of the event log of a machine: what happened, when, and to
/// which machine.
#[derive(Clone, Debug)]
pub struct VMEvent {
    pub event: VMEventType,
    pub at: chrono::NaiveDateTime,
    pub vm_id: uuid::Uuid,
}

/// What keeps the machine from carrying out the instruction at its program
/// counter.
#[derive(Copy, Clone, Debug, PartialEq, Eq, Structural)]
pub enum Fault {
    /// The program ends before the operand bytes that the opcode reads.
    TruncatedInstruction,
    /// An operand byte that names a register is not below 32.
    RegisterOutOfRange,
    /// The divisor of a `DIV` is zero.
    DivideByZero,
    /// The quotient of a `DIV` does not fit a register.
    DivideOverflow,
    /// `ALOC` would give the heap a negative size or one above `HEAP_LIMIT`.
    HeapOutOfRange,
    /// The offset of a `PRTS` lies beyond the read-only data.
    DataOutOfRange,
    /// The string of a `PRTS` is not valid UTF-8.
    InvalidText,
}

/// How a run ended.
#[derive(Copy, Clone, Debug, PartialEq, Eq, Structural)]
pub enum RunOutcome {
    /// The machine halted: on `HLT`, on an unknown opcode, or past the end
    /// of its program.
    Halted,
    /// The machine stands before an instruction that it cannot carry out.
    Faulted(Fault),
    /// The allowance of steps was used up before the machine halted.
    StepLimit,
}

/// The machine.
#[derive(Clone)]
pub struct VM {
    pub regs: [i32; 32],
    pub pc: usize,
    pub program: Vec<u8>,
    pub heap: Vec<u8>,
    pub remainder: u32,
    /// The equality flag.
    pub bool_flag: bool,
    pub ro_data: Vec<u8>,
    pub id: uuid::Uuid,
    /// The lines that `PRTS` has written, oldest first. The host prints them.
    pub output: Vec<String>,
    /// The event log, oldest entry first.
    pub events: Vec<VMEvent>,
}

/// The state of a machine as contracts speak of it.
pub struct Machine {
    pub regs: Seq<i32>,
    pub pc: usize,
    pub program: Seq<u8>,
    pub heap: Seq<u8>,
    pub ro_data: Seq<u8>,
    pub remainder: u32,
    pub flag: bool,
    pub output: Seq<Seq<char>>,
}

/// An integer brought into the range of `usize` by adding or subtracting
/// the size of that range once.
pub open spec fn wrap_usize(x: int) -> usize {
    if x > usize::MAX {
        (x - (usize::MAX + 1)) as usize
    } else if x < 0 {
        (x + (usize::MAX + 1)) as usize
    } else {
        x as usize
    }
}

/// The 16-bit number whose high byte is `hi` and whose low byte is `lo`.
pub open spec fn word(hi: u8, lo: u8) -> int {
    hi * 256 + lo
}

/// The quotient of a division that rounds toward zero.
pub open spec fn quotient(a: int, b: int) -> int {
    if a >= 0 && b > 0 {
        a / b
    } else if a < 0 && b < 0 {
        (-a) / (-b)
    } else if a < 0 {
        -((-a) / b)
    } else {
        -(a / (-b))
    }
}

/// The remainder of a division that rounds toward zero: it has the sign of
/// the dividend.
pub open spec fn remainder(a: int, b: int) -> int {
    if a >= 0 && b > 0 {
        a % b
    } else if a < 0 && b < 0 {
        -((-a) % (-b))
    } else if a < 0 {
        -((-a) % b)
    } else {
        a % (-b)
    }
}

/// A 32-bit signed number read as an unsigned one.
pub open spec fn as_unsigned(x: int) -> u32 {
    if x < 0 {
        (x + 0x1_0000_0000) as u32
    } else {
        x as u32
    }
}

/// The first index at or after `from` at which `data` holds a zero byte,
/// and the length of `data` where there is none.
pub open spec fn terminator(data: Seq<u8>, from: int) -> int
    decreases data.len() - from,
{
    if from < 0 || from >= data.len() || data[from] == 0 {
        from
    } else {
        terminator(data, from + 1)
    }
}

/// The bytes of the zero-terminated string that starts at `from`.
pub open spec fn c_string(data: Seq<u8>, from: int) -> Seq<u8> {
    data.subrange(from, terminator(data, from))
}

/// A byte string cut down or filled up with zero bytes to the length `n`.
pub open spec fn resized(heap: Seq<u8>, n: int) -> Seq<u8> {
    if n <= heap.len() {
        heap.take(n)
    } else {
        heap + Seq::new((n - heap.len()) as nat, |i: int| 0u8)
    }
}

/// Number of operand bytes that an instruction reads after its opcode.
pub open spec fn operand_count(op: Opcode) -> int {
    match op {
        Opcode::NOP | Opcode::HLT | Opcode::IGL => 0,
        Opcode::INC | Opcode::DEC | Opcode::NEG | Opcode::NOT | Opcode::ALOC => 1,
        Opcode::JMP | Opcode::JMPB | Opcode::JMPF | Opcode::JEQ | Opcode::JNE => 1,
        Opcode::MOV | Opcode::PRTS => 2,
        Opcode::EQ | Opcode::NEQ | Opcode::GT | Opcode::LT | Opcode::GEQ | Opcode::LEQ => 2,
        Opcode::LOAD | Opcode::ADD | Opcode::SUB | Opcode::MUL | Opcode::DIV => 3,
        Opcode::AND | Opcode::OR => 3,
    }
}

/// Number of operand bytes, counted from the first, that name a register.
pub open spec fn register_operands(op: Opcode) -> int {
    match op {
        Opcode::LOAD => 1,
        Opcode::PRTS => 0,
        _ => operand_count(op),
    }
}

impl Machine {
    /// The program counter stands at or past the end of the program.
    pub open spec fn at_end(self) -> bool {
        self.pc >= self.program.len()
    }

    /// The opcode at the program counter.
    pub open spec fn opcode(self) -> Opcode {
        Opcode::of_code(self.program[self.pc as int])
    }

    /// The `k`-th byte after the opcode.
    pub open spec fn operand(self, k: int) -> u8 {
        self.program[self.pc + k]
    }

    /// The register that the `k`-th operand byte names.
    pub open spec fn reg(self, k: int) -> i32 {
        self.regs[self.operand(k) as int]
    }

    /// The next step halts the machine.
    pub open spec fn halts(self) -> bool {
        self.at_end() || self.opcode() == Opcode::HLT || self.opcode() == Opcode::IGL
    }

    /// The bytes of the string that a `PRTS` at the program counter names.
    pub open spec fn string_operand(self) -> Seq<u8> {
        c_string(self.ro_data, word(self.operand(1), self.operand(2)))
    }

    /// What keeps the machine from carrying out its next step, if anything
    /// does. A machine that halts has no fault.
    pub open spec fn fault(self) -> Option<Fault> {
        if self.halts() {
            None
        } else if self.pc + operand_count(self.opcode()) >= self.program.len() {
            Some(Fault::TruncatedInstruction)
        } else if (register_operands(self.opcode()) >= 1 && self.operand(1) >= 32) || (
        register_operands(self.opcode()) >= 2 && self.operand(2) >= 32) || (register_operands(
            self.opcode(),
        ) >= 3 && self.operand(3) >= 32) {
            Some(Fault::RegisterOutOfRange)
        } else if self.opcode() == Opcode::DIV && self.reg(2) == 0 {
            Some(Fault::DivideByZero)
        } else if self.opcode() == Opcode::DIV && self.reg(1) == i32::MIN && self.reg(2) == -1 {
            Some(Fault::DivideOverflow)
        } else if self.opcode() == Opcode::ALOC && !(0 <= self.heap.len() + self.reg(1)
            <= HEAP_LIMIT) {
            Some(Fault::HeapOutOfRange)
        } else if self.opcode() == Opcode::PRTS && word(self.operand(1), self.operand(2))
            > self.ro_data.len() {
            Some(Fault::DataOutOfRange)
        } else if self.opcode() == Opcode::PRTS && !valid_utf8(self.string_operand()) {
            Some(Fault::InvalidText)
        } else {
            None
        }
    }

    /// The machine with the program counter moved past a whole instruction.
    pub open spec fn advanced(self) -> Machine {
        Machine { pc: wrap_usize(self.pc + 4), ..self }
    }

    /// The machine with one register replaced, past the instruction.
    pub open spec fn assigned(self, k: int, value: i32) -> Machine {
        Machine { regs: self.regs.update(self.operand(k) as int, value), ..self.advanced() }
    }

    /// The machine with the equality flag replaced, past the instruction.
    pub open spec fn flagged(self, flag: bool) -> Machine {
        Machine { flag: flag, ..self.advanced() }
    }

    /// The machine with the program counter set by a jump instruction: to
    /// `target` where the jump is taken, and behind the register operand
    /// where it is not.
    pub open spec fn jumped(self, taken: bool, target: int) -> Machine {
        Machine { pc: wrap_usize(if taken { target } else { self.pc + 2 }), ..self }
    }

    /// The machine after its next step. A machine at the end of its program
    /// stays as it is; `HLT` and an unknown opcode only move the program
    /// counter past the opcode. The result means nothing where
    /// [`Machine::fault`] reports a fault.
    pub open spec fn step(self) -> Machine {
        if self.at_end() {
            self
        } else {
            match self.opcode() {
                Opcode::HLT | Opcode::IGL => Machine { pc: wrap_usize(self.pc + 1), ..self },
                Opcode::NOP => self.advanced(),
                Opcode::LOAD => self.assigned(1, word(self.operand(2), self.operand(3)) as i32),
                Opcode::MOV => self.assigned(1, self.reg(2)),
                Opcode::ADD => self.assigned(3, self.reg(1).wrapping_add(self.reg(2))),
                Opcode::SUB => self.assigned(3, self.reg(1).wrapping_sub(self.reg(2))),
                Opcode::MUL => self.assigned(3, self.reg(1).wrapping_mul(self.reg(2))),
                Opcode::DIV => Machine {
                    remainder: as_unsigned(remainder(self.reg(1) as int, self.reg(2) as int)),
                    ..self.assigned(3, quotient(self.reg(1) as int, self.reg(2) as int) as i32)
                },
                Opcode::INC => self.assigned(1, self.reg(1).wrapping_add(1)),
                Opcode::DEC => self.assigned(1, self.reg(1).wrapping_sub(1)),
                Opcode::NEG => self.assigned(1, 0i32.wrapping_sub(self.reg(1))),
                Opcode::NOT => self.assigned(1, !self.reg(1)),
                Opcode::AND => self.assigned(3, self.reg(1) & self.reg(2)),
                Opcode::OR => self.assigned(3, self.reg(1) | self.reg(2)),
                Opcode::JMP => self.jumped(true, self.reg(1) as int),
                Opcode::JMPB => self.jumped(true, self.pc + 2 - self.reg(1)),
                Opcode::JMPF => self.jumped(true, self.pc + 2 + self.reg(1)),
                Opcode::JEQ => self.jumped(self.flag, self.reg(1) as int),
                Opcode::JNE => self.jumped(!self.flag, self.reg(1) as int),
                Opcode::EQ => self.flagged(self.reg(1) == self.reg(2)),
                Opcode::NEQ => self.flagged(self.reg(1) != self.reg(2)),
                Opcode::GT => self.flagged(self.reg(1) > self.reg(2)),
                Opcode::LT => self.flagged(self.reg(1) < self.reg(2)),
                Opcode::GEQ => self.flagged(self.reg(1) >= self.reg(2)),
                Opcode::LEQ => self.flagged(self.reg(1) <= self.reg(2)),
                Opcode::ALOC => Machine {
                    heap: resized(self.heap, self.heap.len() + self.reg(1)),
                    ..self.advanced()
                },
                Opcode::PRTS => Machine {
                    output: self.output.push(decode_utf8(self.string_operand())),
                    ..self.advanced()
                },
            }
        }
    }

    /// The machine after a run of at most `steps` steps, and how the run
    /// ended. A run stops before an instruction that cannot be carried out
    /// and leaves the machine as it stood there; it stops after the step
    /// that halts the machine; and it stops when `steps` steps are done.
    pub open spec fn run(self, steps: nat) -> (Machine, RunOutcome)
        decreases steps,
    {
        if self.fault() is Some {
            (self, RunOutcome::Faulted(self.fault().unwrap()))
        } else if steps == 0 {
            (self, RunOutcome::StepLimit)
        } else if self.halts() {
            (self.step(), RunOutcome::Halted)
        } else {
            self.step().run((steps - 1) as nat)
        }
    }
}

impl View for VM {
    type V = Machine;

    open spec fn view(&self) -> Machine {
        Machine {
            regs: self.regs@,
            pc: self.pc,
            program: self.program@,
            heap: self.heap@,
            ro_data: self.ro_data@,
            remainder: self.remainder,
            flag: self.bool_flag,
            output: Seq::new(self.output@.len(), |i: int| self.output@[i]@),
        }
    }
}

/// The most steps that [`VM::run`] takes before it gives up.
pub const RUN_STEP_LIMIT: u64 = 0xffff_ffff_ffff_ffff;

/// The kind of the entry that closes the log of a run.
pub open spec fn closing_event(outcome: RunOutcome) -> VMEventType {
    if outcome is Faulted {
        VMEventType::Crash
    } else {
        VMEventType::Stop
    }
}

/// The kinds of the entries of an event log, oldest first.
pub open spec fn event_kinds(events: Seq<VMEvent>) -> Seq<VMEventType> {
    Seq::new(events.len(), |i: int| events[i].event)
}

/// The program counter that a jump to the address `t` installs.
fn absolute_target(t: i32) -> (pc: usize)
    ensures
        pc == wrap_usize(t as int),
{
    if t >= 0 {
        t as usize
    } else {
        let back: i64 = -(t as i64) - 1;
        usize::MAX - (back as usize)
    }
}

/// The program counter `delta` bytes away from `pc`.
fn relative_target(pc: usize, delta: i64) -> (target: usize)
    requires
        -0x8000_0000 <= delta <= 0x8000_0000,
    ensures
        target == wrap_usize(pc + delta),
{
    if delta >= 0 {
        pc.wrapping_add(delta as usize)
    } else {
        let back: i64 = -delta;
        pc.wrapping_sub(back as usize)
    }
}

/// A 32-bit signed number read as an unsigned one.
fn unsigned_of(x: i32) -> (u: u32)
    ensures
        u == as_unsigned(x as int),
{
    if x >= 0 {
        x as u32
    } else {
        let lifted: i64 = x as i64 + 0x1_0000_0000;
        lifted as u32
    }
}

/// The 16-bit number whose high byte is `hi` and whose low byte is `lo`.
fn word_of(hi: u8, lo: u8) -> (w: u16)
    ensures
        w == word(hi, lo),
{
    (hi as u16) * 256 + (lo as u16)
}

/// The first index at or after `from` at which `data` holds a zero byte.
fn find_terminator(data: &Vec<u8>, from: usize) -> (end: usize)
    requires
        from <= data.len(),
    ensures
        end == terminator(data@, from as int),
        from <= end <= data.len(),
{
    let mut end: usize = from;
    while end < data.len() && data[end] != 0
        invariant
            from <= end <= data.len(),
            terminator(data@, from as int) == terminator(data@, end as int),
        decreases data.len() - end,
    {
        end += 1;
    }
    end
}

/// Division that rounds toward zero: the quotient, and the remainder read
/// as an unsigned number.
fn divide(p: i32, q: i32) -> (r: (i32, u32))
    requires
        q != 0,
        !(p == i32::MIN && q == -1),
    ensures
        r.0 == quotient(p as int, q as int),
        r.1 == as_unsigned(remainder(p as int, q as int)),
{
    proof {
        let a: int = if p < 0 { -(p as int) } else { p as int };
        let b: int = if q < 0 { -(q as int) } else { q as int };
        lemma_div_pos_is_pos(a, b);
        lemma_div_nonincreasing(a, b);
        lemma_mod_bound(a, b);
        if a > 0 && b > 1 {
            lemma_div_decreases(a, b);
        }
        if a == 0 {
            lemma_basic_div(0, b);
            lemma_small_mod(0, b as nat);
        }
        assert(-(p as int) == p * -1 && -(q as int) == q * -1);
    }
    let quot = p.checked_div(q);
    let rem = p.checked_rem(q);
    (quot.unwrap(), unsigned_of(rem.unwrap()))
}

/// The bitwise complement of a number.
fn complement(x: i32) -> (y: i32)
    ensures
        y == !x,
{
    !x
}

/// Number of operand bytes that an instruction reads after its opcode.
fn operands_read(op: Opcode) -> (n: usize)
    ensures
        n == operand_count(op),
{
    match op {
        Opcode::NOP | Opcode::HLT | Opcode::IGL => 0,
        Opcode::INC | Opcode::DEC | Opcode::NEG | Opcode::NOT | Opcode::ALOC => 1,
        Opcode::JMP | Opcode::JMPB | Opcode::JMPF | Opcode::JEQ | Opcode::JNE => 1,
        Opcode::MOV | Opcode::PRTS => 2,
        Opcode::EQ | Opcode::NEQ | Opcode::GT | Opcode::LT | Opcode::GEQ | Opcode::LEQ => 2,
        Opcode::LOAD | Opcode::ADD | Opcode::SUB | Opcode::MUL | Opcode::DIV => 3,
        Opcode::AND | Opcode::OR => 3,
    }
}

/// Number of operand bytes, counted from the first, that name a register.
fn registers_read(op: Opcode) -> (n: usize)
    ensures
        n == register_operands(op),
{
    match op {
        Opcode::LOAD => 1,
        Opcode::PRTS => 0,
        _ => operands_read(op),
    }
}

impl VM {
    /// A machine with zeroed registers, no program, no data and a fresh
    /// identifier.
    pub fn new() -> (vm: VM)
        ensures
            vm@.regs == Seq::new(32, |i: int| 0i32),
            vm@.pc == 0,
            vm@.program.len() == 0,
            vm@.heap.len() == 0,
            vm@.ro_data.len() == 0,
            vm@.remainder == 0,
            !vm@.flag,
            vm@.output.len() == 0,
            vm.events@.len() == 0,
    {
        let vm = VM {
            regs: [0;32],
            pc: 0,
            program: Vec::new(),
            heap: Vec::new(),
            remainder: 0,
            bool_flag: false,
            ro_data: Vec::new(),
            id: fresh_id(),
            output: Vec::new(),
            events: Vec::new(),
        };
        assert(vm@.regs =~= Seq::new(32, |i: int| 0i32));
        vm
    }

    /// Gives the machine a program in place of the one it has. The program
    /// counter stays where it is.
    pub fn load_program(&mut self, bytes: Vec<u8>)
        ensures
            final(self)@ == (Machine { program: bytes@, ..old(self)@ }),
            final(self).id == old(self).id,
            final(self).events == old(self).events,
    {
        self.program = bytes;
    }

    /// Gives the machine read-only data in place of the data it has.
    pub fn load_ro(&mut self, bytes: Vec<u8>)
        ensures
            final(self)@ == (Machine { ro_data: bytes@, ..old(self)@ }),
            final(self).id == old(self).id,
            final(self).events == old(self).events,
    {
        self.ro_data = bytes;
    }

    /// Sets the program counter.
    pub fn set_pc(&mut self, pc: usize)
        ensures
            final(self)@ == (Machine { pc: pc, ..old(self)@ }),
            final(self).id == old(self).id,
            final(self).events == old(self).events,
    {
        self.pc = pc;
    }

    /// Appends an entry of the given kind, stamped with the current time, to
    /// the event log.
    fn record(&mut self, kind: VMEventType)
        ensures
            final(self)@ == old(self)@,
            final(self).id == old(self).id,
            final(self).events@.len() == old(self).events@.len() + 1,
            final(self).events@.take(old(self).events@.len() as int) == old(self).events@,
            final(self).events@.last().event == kind,
            final(self).events@.last().vm_id == old(self).id,
    {
        let entry = VMEvent { event: kind, at: now(), vm_id: self.id };
        self.events.push(entry);
        assert(self.events@.take(old(self).events@.len() as int) =~= old(self).events@);
    }

    /// Reads the opcode at the program counter and moves past it.
    fn decode_opcode(&mut self) -> (op: Opcode)
        requires
            old(self).pc < old(self).program.len(),
        ensures
            op == old(self)@.opcode(),
            *final(self) == (VM { pc: (old(self).pc + 1) as usize, ..*old(self) }),
    {
        let op = Opcode::from(self.program[self.pc]);
        self.pc += 1;
        op
    }

    /// Moves the program counter past one byte without reading it.
    fn discard_8b(&mut self)
        ensures
            *final(self) == (VM { pc: wrap_usize(old(self).pc + 1), ..*old(self) }),
    {
        self.pc = self.pc.wrapping_add(1);
    }

    /// Moves the program counter past two bytes without reading them.
    fn discard_16b(&mut self)
        ensures
            *final(self) == (VM { pc: wrap_usize(old(self).pc + 2), ..*old(self) }),
    {
        self.pc = self.pc.wrapping_add(2);
    }

    /// Reads the byte at the program counter and moves past it.
    fn next_8b(&mut self) -> (r: u8)
        requires
            old(self).pc < old(self).program.len(),
        ensures
            r == old(self).program[old(self).pc as int],
            *final(self) == (VM { pc: (old(self).pc + 1) as usize, ..*old(self) }),
    {
        let r = self.program[self.pc];
        self.pc += 1;
        r
    }

    /// Reads the index of a register at the program counter and moves past
    /// it.
    fn next_8b_reg(&mut self) -> (r: u8)
        requires
            old(self).pc < old(self).program.len(),
            old(self).program[old(self).pc as int] < 32,
        ensures
            r == old(self).program[old(self).pc as int],
            r < 32,
            *final(self) == (VM { pc: (old(self).pc + 1) as usize, ..*old(self) }),
    {
        self.next_8b()
    }

    /// Reads the 16-bit number at the program counter, high byte first, and
    /// moves past it.
    fn next_16b(&mut self) -> (r: u16)
        requires
            old(self).pc + 1 < old(self).program.len(),
        ensures
            r == word(
                old(self).program[old(self).pc as int],
                old(self).program[old(self).pc + 1],
            ),
            *final(self) == (VM { pc: (old(self).pc + 2) as usize, ..*old(self) }),
    {
        let hi = self.next_8b();
        let lo = self.next_8b();
        word_of(hi, lo)
    }

    /// Reads the index of a register at the program counter, moves past it
    /// and returns what the register holds.
    fn next_reg_value(&mut self) -> (v: i32)
        requires
            old(self).pc < old(self).program.len(),
            old(self).program[old(self).pc as int] < 32,
        ensures
            v == old(self).regs[old(self).program[old(self).pc as int] as int],
            *final(self) == (VM { pc: (old(self).pc + 1) as usize, ..*old(self) }),
    {
        let r = self.next_8b_reg();
        self.regs[r as usize]
    }

    /// What keeps the machine from carrying out its next step, if anything
    /// does.
    pub fn fault(&self) -> (f: Option<Fault>)
        ensures
            f == self@.fault(),
    {
        if self.pc >= self.program.len() {
            return None;
        }
        let op = Opcode::from(self.program[self.pc]);
        if op == Opcode::HLT || op == Opcode::IGL {
            return None;
        }
        if operands_read(op) >= self.program.len() - self.pc {
            return Some(Fault::TruncatedInstruction);
        }
        let named: usize = registers_read(op);
        if (named >= 1 && self.program[self.pc + 1] >= 32) || (named >= 2 && self.program[self.pc
            + 2] >= 32) || (named >= 3 && self.program[self.pc + 3] >= 32) {
            return Some(Fault::RegisterOutOfRange);
        }
        match op {
            Opcode::DIV => {
                let p = self.regs[self.program[self.pc + 1] as usize];
                let q = self.regs[self.program[self.pc + 2] as usize];
                if q == 0 {
                    Some(Fault::DivideByZero)
                } else if p == i32::MIN && q == -1 {
                    Some(Fault::DivideOverflow)
                } else {
                    None
                }
            },
            Opcode::ALOC => {
                let t = self.regs[self.program[self.pc + 1] as usize];
                if self.heap.len() > 0xffff_ffff {
                    Some(Fault::HeapOutOfRange)
                } else {
                    let size: i64 = self.heap.len() as i64 + t as i64;
                    if size < 0 || size > HEAP_LIMIT as i64 {
                        Some(Fault::HeapOutOfRange)
                    } else {
                        None
                    }
                }
            },
            Opcode::PRTS => {
                let from = word_of(self.program[self.pc + 1], self.program[self.pc + 2]) as usize;
                if from > self.ro_data.len() {
                    Some(Fault::DataOutOfRange)
                } else {
                    let end = find_terminator(&self.ro_data, from);
                    let text = text_of_utf8(slice_subrange(self.ro_data.as_slice(), from, end));
                    if text.is_none() {
                        Some(Fault::InvalidText)
                    } else {
                        None
                    }
                }
            },
            _ => None,
        }
    }

    /// Carries out the instruction at the program counter and says whether
    /// the machine has halted. The event log is left alone.
    pub fn step(&mut self) -> (halted: bool)
        requires
            old(self)@.fault() is None,
        ensures
            final(self)@ == old(self)@.step(),
            halted == old(self)@.halts(),
            final(self).id == old(self).id,
            final(self).events == old(self).events,
    {
        if self.pc >= self.program.len() {
            return true;
        }
        match self.decode_opcode() {
            Opcode::NOP => {
                self.discard_8b();
                self.discard_16b();
            },
            Opcode::HLT => {
                return true;
            },
            Opcode::LOAD => {
                let reg = self.next_8b_reg() as usize;
                let n = self.next_16b();
                self.regs[reg] = n as i32;
            },
            Opcode::MOV => {
                let dst = self.next_8b_reg() as usize;
                let v = self.next_reg_value();
                self.regs[dst] = v;
                self.discard_8b();
            },
            Opcode::ADD => {
                let p = self.next_reg_value();
                let q = self.next_reg_value();
                let dst = self.next_8b_reg() as usize;
                self.regs[dst] = p.wrapping_add(q);
            },
            Opcode::SUB => {
                let p = self.next_reg_value();
                let q = self.next_reg_value();
                let dst = self.next_8b_reg() as usize;
                self.regs[dst] = p.wrapping_sub(q);
            },
            Opcode::MUL => {
                let p = self.next_reg_value();
                let q = self.next_reg_value();
                let dst = self.next_8b_reg() as usize;
                self.regs[dst] = p.wrapping_mul(q);
            },
            Opcode::DIV => {
                let p = self.next_reg_value();
                let q = self.next_reg_value();
                let dst = self.next_8b_reg() as usize;
                let (quot, rem) = divide(p, q);
                self.regs[dst] = quot;
                self.remainder = rem;
            },
            Opcode::NEG => {
                let r = self.next_8b_reg() as usize;
                self.regs[r] = 0i32.wrapping_sub(self.regs[r]);
                self.discard_16b();
            },
            Opcode::INC => {
                let r = self.next_8b_reg() as usize;
                self.regs[r] = self.regs[r].wrapping_add(1);
                self.discard_16b();
            },
            Opcode::DEC => {
                let r = self.next_8b_reg() as usize;
                self.regs[r] = self.regs[r].wrapping_sub(1);
                self.discard_16b();
            },
            Opcode::JMP => {
                let t = self.next_reg_value();
                self.pc = absolute_target(t);
            },
            Opcode::JMPB => {
                let t = self.next_reg_value();
                self.pc = relative_target(self.pc, -(t as i64));
            },
            Opcode::JMPF => {
                let t = self.next_reg_value();
                self.pc = relative_target(self.pc, t as i64);
            },
            Opcode::EQ => {
                let a = self.next_reg_value();
                let b = self.next_reg_value();
                self.bool_flag = a == b;
                self.discard_8b();
            },
            Opcode::NEQ => {
                let a = self.next_reg_value();
                let b = self.next_reg_value();
                self.bool_flag = a != b;
                self.discard_8b();
            },
            Opcode::GT => {
                let a = self.next_reg_value();
                let b = self.next_reg_value();
                self.bool_flag = a > b;
                self.discard_8b();
            },
            Opcode::GEQ => {
                let a = self.next_reg_value();
                let b = self.next_reg_value();
                self.bool_flag = a >= b;
                self.discard_8b();
            },
            Opcode::LT => {
                let a = self.next_reg_value();
                let b = self.next_reg_value();
                self.bool_flag = a < b;
                self.discard_8b();
            },
            Opcode::LEQ => {
                let a = self.next_reg_value();
                let b = self.next_reg_value();
                self.bool_flag = a <= b;
                self.discard_8b();
            },
            Opcode::OR => {
                let p = self.next_reg_value();
                let q = self.next_reg_value();
                let dst = self.next_8b_reg() as usize;
                self.regs[dst] = p | q;
            },
            Opcode::AND => {
                let p = self.next_reg_value();
                let q = self.next_reg_value();
                let dst = self.next_8b_reg() as usize;
                self.regs[dst] = p & q;
            },
            Opcode::NOT => {
                let r = self.next_8b_reg() as usize;
                self.regs[r] = complement(self.regs[r]);
                self.discard_16b();
            },
            Opcode::JEQ => {
                let t = self.next_reg_value();
                if self.bool_flag {
                    self.pc = absolute_target(t);
                }
            },
            Opcode::JNE => {
                let t = self.next_reg_value();
                if !self.bool_flag {
                    self.pc = absolute_target(t);
                }
            },
            Opcode::ALOC => {
                let t = self.next_reg_value();
                let size: i64 = self.heap.len() as i64 + t as i64;
                self.heap.resize(size as usize, 0);
                self.discard_16b();
                assert(self@.heap =~= resized(old(self)@.heap, size as int));
                assert(self@ =~= old(self)@.step());
            },
            Opcode::PRTS => {
                let from = self.next_16b() as usize;
                let end = find_terminator(&self.ro_data, from);
                let text = text_of_utf8(slice_subrange(self.ro_data.as_slice(), from, end));
                if let Some(line) = text {
                    proof {
                        encode_utf8_decode_utf8(line@);
                    }
                    self.output.push(line);
                }
                self.discard_8b();
                assert(self@.output =~= old(self)@.output.push(decode_utf8(old(self)@.string_operand())));
                assert(self@ =~= old(self)@.step());
            },
            Opcode::IGL => {
                return true;
            },
        }
        false
    }

    /// Takes steps until the machine halts, stands before an instruction
    /// that it cannot carry out, or has taken `max_steps` steps. A fault
    /// leaves the machine as it stood before the faulting instruction. The
    /// run is logged with a `Start` entry and a closing entry: `Crash` after
    /// a fault, `Stop` otherwise.
    pub fn run_bounded(&mut self, max_steps: u64) -> (outcome: RunOutcome)
        ensures
            final(self)@ == old(self)@.run(max_steps as nat).0,
            outcome == old(self)@.run(max_steps as nat).1,
            final(self).id == old(self).id,
            final(self).events@.len() == old(self).events@.len() + 2,
            final(self).events@.take(old(self).events@.len() as int) == old(self).events@,
            event_kinds(final(self).events@) == event_kinds(old(self).events@).push(
                VMEventType::Start,
            ).push(closing_event(outcome)),
            final(self).events@[old(self).events@.len() as int].event == VMEventType::Start,
            final(self).events@[old(self).events@.len() as int].vm_id == old(self).id,
            final(self).events@.last().event == closing_event(outcome),
            final(self).events@.last().vm_id == old(self).id,
    {
        self.record(VMEventType::Start);
        let ghost started = self.events@;
        let mut left: u64 = max_steps;
        let mut result: Option<RunOutcome> = None;
        while result.is_none()
            invariant
                self.id == old(self).id,
                self.events@ == started,
                match result {
                    None => self@.run(left as nat) == old(self)@.run(max_steps as nat),
                    Some(o) => (self@, o) == old(self)@.run(max_steps as nat),
                },
            decreases
                    (if result is None {
                        left + 1
                    } else {
                        0
                    }),
        {
            let fault = self.fault();
            if let Some(f) = fault {
                result = Some(RunOutcome::Faulted(f));
            } else if left == 0 {
                result = Some(RunOutcome::StepLimit);
            } else {
                let halted = self.step();
                if halted {
                    result = Some(RunOutcome::Halted);
                } else {
                    left -= 1;
                }
            }
        }
        let outcome = result.unwrap();
        let closing = match outcome {
            RunOutcome::Faulted(_) => VMEventType::Crash,
            _ => VMEventType::Stop,
        };
        self.record(closing);
        proof {
            let n = old(self).events@.len() as int;
            assert(self.events@.take(n) =~= started.take(n));
            assert(event_kinds(self.events@) =~= event_kinds(old(self).events@).push(
                VMEventType::Start,
            ).push(closing_event(outcome)));
        }
        outcome
    }

    /// Runs the machine until it halts and says whether it did. The answer
    /// is `false` where the run ended on a fault, or after `RUN_STEP_LIMIT`
    /// steps. The log gains two entries, both of this machine: `Start`, and
    /// then `Stop`, or `Crash` after a fault.
    pub fn run(&mut self) -> (done: bool)
        ensures
            final(self)@ == old(self)@.run(RUN_STEP_LIMIT as nat).0,
            done == (old(self)@.run(RUN_STEP_LIMIT as nat).1 == RunOutcome::Halted),
            final(self).id == old(self).id,
            final(self).events@.len() == old(self).events@.len() + 2,
            final(self).events@.take(old(self).events@.len() as int) == old(self).events@,
            event_kinds(final(self).events@) == event_kinds(old(self).events@).push(
                VMEventType::Start,
            ).push(closing_event(old(self)@.run(RUN_STEP_LIMIT as nat).1)),
            final(self).events@[old(self).events@.len() as int].event == VMEventType::Start,
            final(self).events@[old(self).events@.len() as int].vm_id == old(self).id,
            final(self).events@.last().event == closing_event(
                old(self)@.run(RUN_STEP_LIMIT as nat).1,
            ),
            final(self).events@.last().vm_id == old(self).id,
    {
        let outcome = self.run_bounded(RUN_STEP_LIMIT);
        outcome == RunOutcome::Halted
    }
}

} // verus!
