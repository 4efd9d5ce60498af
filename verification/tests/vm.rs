use pie_vm::instruction::Opcode;
use pie_vm::vm::{Fault, RunOutcome, VMEventType, VM};

#[test]
fn test_create_vm() {
    let vm = VM::new();
    for x in vm.regs {
        assert_eq!(x, 0)
    }
}

#[test]
fn test_opcode_hlt() {
    let mut vm = VM::new();
    let b = vec![Opcode::HLT as u8];
    vm.program = b;
    vm.run();
    assert_eq!(vm.pc, 1);
}

#[test]
fn test_opcode_illegal() {
    let mut vm = VM::new();
    let b = vec![255, 0, 0];
    vm.program = b;
    vm.run();
    assert_eq!(vm.pc, 1);
}

#[test]
fn test_opcode_load() {
    let mut vm = VM::new();
    /* 1: load, 0: target register, (1<<8)+244 == 500 */
    vm.program = vec![Opcode::LOAD as u8, 0, 1, 244, Opcode::HLT as u8];
    vm.run();
    assert_eq!(vm.regs[0], 500);
}

#[test]
fn test_opcode_add() {
    let mut vm = VM::new();
    vm.program = vec![
        Opcode::LOAD as u8,
        0,
        0,
        1, // regs[0] = 1
        Opcode::LOAD as u8,
        1,
        1,
        1, // regs[1] = (1<<8)+1 = 257
        Opcode::ADD as u8,
        0,
        1,
        2, // regs[2] = regs[1]+regs[0]
        Opcode::HLT as u8,
    ]; // hlt
    vm.run();
    assert_eq!(vm.regs[2], 258);
}

#[test]
fn test_opcode_sub() {
    let mut vm = VM::new();
    vm.program = vec![
        Opcode::LOAD as u8,
        1,
        0,
        1, // regs[1] = 1
        Opcode::LOAD as u8,
        0,
        1,
        1, // regs[0] = (1<<8)+1 = 257
        Opcode::SUB as u8,
        0,
        1,
        2, // regs[2] = regs[0]-regs[1]
        Opcode::HLT as u8,
    ]; // hlt
    vm.run();
    assert_eq!(vm.regs[2], 256);
}

#[test]
fn test_opcode_mul() {
    let mut vm = VM::new();
    vm.program = vec![
        Opcode::LOAD as u8,
        0,
        0,
        2, // regs[0] = 2
        Opcode::LOAD as u8,
        1,
        1,
        1, // regs[1] = (1<<8)+1 = 257
        Opcode::MUL as u8,
        0,
        1,
        2, // regs[2] = regs[1]*regs[0]
        Opcode::HLT as u8,
    ]; // hlt
    vm.run();
    assert_eq!(vm.regs[2], 257 * 2);
}

#[test]
fn test_opcode_div() {
    let mut vm = VM::new();
    vm.program = vec![
        Opcode::LOAD as u8,
        0,
        0,
        2, // regs[0] = 2
        Opcode::LOAD as u8,
        1,
        0,
        3, // regs[1] = 3
        Opcode::DIV as u8,
        1,
        0,
        2, // regs[2] = regs[1]/regs[0]
        Opcode::HLT as u8,
    ]; // hlt
    vm.run();
    assert_eq!(vm.regs[2], 1);
    assert_eq!(vm.remainder, 1);
}

#[test]
fn test_opcode_jmp() {
    let mut vm = VM::new();
    vm.regs[1] = 5;
    vm.program = vec![Opcode::JMP as u8, 1, 255, 255, 255, Opcode::HLT as u8];
    vm.step();
    assert_eq!(vm.pc, 5);
}

#[test]
fn test_opcode_jmpb() {
    let mut vm = VM::new();
    vm.regs[1] = 3;
    vm.pc = 1;
    vm.program = vec![Opcode::HLT as u8, Opcode::JMPB as u8, 1, 255, 255, 255];
    vm.run();
    assert_eq!(vm.pc, 1); // stop after executing hlt
}

#[test]
fn test_opcode_jmpf() {
    let mut vm = VM::new();
    vm.regs[1] = 3;
    vm.program = vec![Opcode::JMPF as u8, 1, 255, 255, Opcode::HLT as u8];
    vm.step();
    assert_eq!(vm.pc, 5);
}

#[test]
fn test_opcode_eq() {
    let mut vm = VM::new();
    vm.regs[0] = 1;
    vm.regs[1] = 1;
    vm.program = vec![Opcode::EQ as u8, 0, 1];
    vm.step();
    assert_eq!(vm.bool_flag, true);
    vm.pc = 0;
    vm.regs[0] = 0;
    vm.step();
    assert_eq!(vm.bool_flag, false);
}

#[test]
fn test_opcode_neq() {
    let mut vm = VM::new();
    vm.regs[0] = 1;
    vm.regs[1] = 1;
    vm.program = vec![Opcode::NEQ as u8, 0, 1];
    vm.step();
    assert_eq!(vm.bool_flag, false);
    vm.pc = 0;
    vm.regs[0] = 0;
    vm.step();
    assert_eq!(vm.bool_flag, true);
}

#[test]
fn test_opcode_gt() {
    let mut vm = VM::new();
    vm.regs[0] = 1;
    vm.regs[1] = 1;
    vm.program = vec![Opcode::GT as u8, 0, 1];
    vm.step();
    assert_eq!(vm.bool_flag, false);
    vm.pc = 0;
    vm.regs[0] = 5;
    vm.step();
    assert_eq!(vm.bool_flag, true);
}

#[test]
fn test_opcode_lt() {
    let mut vm = VM::new();
    vm.regs[0] = 1;
    vm.regs[1] = 1;
    vm.program = vec![Opcode::LT as u8, 0, 1];
    vm.step();
    assert_eq!(vm.bool_flag, false);
    vm.pc = 0;
    vm.regs[1] = 2;
    vm.step();
    assert_eq!(vm.bool_flag, true);
}

#[test]
fn test_opcode_geq() {
    let mut vm = VM::new();
    vm.regs[0] = 1;
    vm.regs[1] = 1;
    vm.program = vec![Opcode::GEQ as u8, 0, 1];
    vm.step();
    assert_eq!(vm.bool_flag, true);
    vm.pc = 0;
    vm.regs[0] = 0;
    vm.step();
    assert_eq!(vm.bool_flag, false);
}

#[test]
fn test_opcode_leq() {
    let mut vm = VM::new();
    vm.regs[0] = 1;
    vm.regs[1] = 1;
    vm.program = vec![Opcode::LEQ as u8, 0, 1];
    vm.step();
    assert_eq!(vm.bool_flag, true);
    vm.pc = 0;
    vm.regs[0] = 0;
    vm.step();
    assert_eq!(vm.bool_flag, true);
}

#[test]
fn test_opcode_jeq() {
    let mut vm = VM::new();
    vm.bool_flag = true;
    vm.regs[0] = 5;
    vm.program = vec![Opcode::JEQ as u8, 0, 255, 255, 255, Opcode::HLT as u8];
    vm.step();
    assert_eq!(vm.pc, 5);
    vm.pc = 0;
    vm.bool_flag = false;
    vm.regs[0] = 5;
    vm.program = vec![Opcode::JEQ as u8, 0, 255, 255, 255, Opcode::HLT as u8];
    vm.step();
    assert_eq!(vm.pc, 2);
}

#[test]
fn test_opcode_jne() {
    let mut vm = VM::new();
    vm.bool_flag = true;
    vm.regs[0] = 5;
    vm.program = vec![Opcode::JNE as u8, 0, 255, 255, 255, Opcode::HLT as u8];
    vm.step();
    assert_eq!(vm.pc, 2);
    vm.pc = 0;
    vm.bool_flag = false;
    vm.regs[0] = 5;
    vm.program = vec![Opcode::JNE as u8, 0, 255, 255, 255, Opcode::HLT as u8];
    vm.step();
    assert_eq!(vm.pc, 5);
}

#[test]
fn test_opcode_aloc() {
    let mut vm = VM::new();
    vm.regs[0] = 1024;
    vm.program = vec![Opcode::ALOC as u8, 0, Opcode::HLT as u8];
    vm.run();
    assert_eq!(vm.heap.len(), 1024);
}

fn machine(program: Vec<u8>) -> VM {
    let mut vm = VM::new();
    vm.program = program;
    vm
}

#[test]
fn opcode_codes_follow_the_declaration_order() {
    assert_eq!(Opcode::NOP as u8, 0);
    assert_eq!(Opcode::HLT as u8, 1);
    assert_eq!(Opcode::LOAD as u8, 2);
    assert_eq!(Opcode::NEG as u8, 9);
    assert_eq!(Opcode::MOV as u8, 10);
    assert_eq!(Opcode::JNE as u8, 21);
    assert_eq!(Opcode::AND as u8, 22);
    assert_eq!(Opcode::PRTS as u8, 26);
    assert_eq!(Opcode::IGL as u8, 27);
    for b in 0..=255u8 {
        let op = Opcode::from(b);
        assert_eq!(op.code(), if b < 27 { b } else { 27 });
        assert_eq!(op as u8, op.code());
    }
}

#[test]
fn mnemonics_are_looked_up_without_regard_to_case() {
    assert_eq!(Opcode::from("load"), Opcode::LOAD);
    assert_eq!(Opcode::from("LOAD"), Opcode::LOAD);
    assert_eq!(Opcode::from("LoAd"), Opcode::LOAD);
    assert_eq!(Opcode::from("neg"), Opcode::NEG);
    assert_eq!(Opcode::from("mov"), Opcode::MOV);
    assert_eq!(Opcode::from("and"), Opcode::AND);
    assert_eq!(Opcode::from("or"), Opcode::OR);
    assert_eq!(Opcode::from("not"), Opcode::NOT);
    assert_eq!(Opcode::from("prts"), Opcode::PRTS);
    assert_eq!(Opcode::from("igl"), Opcode::IGL);
    assert_eq!(Opcode::from("loads"), Opcode::IGL);
    assert_eq!(Opcode::from(""), Opcode::IGL);
    assert_eq!(Opcode::from("lo\u{e4}d"), Opcode::IGL);
}

#[test]
fn every_mnemonic_names_its_opcode() {
    for b in 0..27u8 {
        let op = Opcode::from(b);
        let name = op.name();
        assert_eq!(Opcode::from(name.as_str()), op);
        assert_eq!(Opcode::from(name.to_lowercase().as_str()), op);
        assert_eq!(name, format!("{:?}", op));
    }
    assert_eq!(Opcode::IGL.name(), "IGL");
}

#[test]
fn load_round_trip_for_every_register() {
    for r in 0..32u8 {
        for v in [0u16, 1, 255, 256, 500, 0x7fff, 0x8000, 0xfffe, 0xffff] {
            let mut vm = machine(vec![
                Opcode::LOAD as u8,
                r,
                (v >> 8) as u8,
                (v & 0xff) as u8,
                Opcode::HLT as u8,
                0,
                0,
                0,
            ]);
            assert!(vm.run());
            assert_eq!(vm.regs[r as usize], v as i32);
            assert_eq!(vm.pc, 5);
        }
    }
}

#[test]
fn load_of_ffff_is_not_negative() {
    let mut vm = machine(vec![Opcode::LOAD as u8, 3, 0xff, 0xff, Opcode::HLT as u8]);
    assert!(vm.run());
    assert_eq!(vm.regs[3], 65535);
    assert_eq!(vm.regs[3], 0x0000_ffff);
}

#[test]
fn divide_by_zero_is_a_fault_and_changes_nothing() {
    let mut vm = machine(vec![Opcode::DIV as u8, 0, 1, 2, Opcode::HLT as u8]);
    vm.regs[0] = 7;
    vm.regs[1] = 0;
    vm.regs[2] = 99;
    vm.remainder = 5;
    assert_eq!(vm.fault(), Some(Fault::DivideByZero));
    let done = vm.run();
    assert!(!done);
    assert_eq!(vm.pc, 0);
    assert_eq!(vm.regs[0], 7);
    assert_eq!(vm.regs[2], 99);
    assert_eq!(vm.remainder, 5);
    let kinds: Vec<VMEventType> = vm.events.iter().map(|e| e.event).collect();
    assert_eq!(kinds, vec![VMEventType::Start, VMEventType::Crash]);
    assert!(vm.events.iter().all(|e| e.vm_id == vm.id));
}

#[test]
fn division_rounds_toward_zero() {
    let mut vm = machine(vec![Opcode::DIV as u8, 0, 1, 2]);
    vm.regs[0] = -7;
    vm.regs[1] = 2;
    assert!(!vm.step());
    assert_eq!(vm.regs[2], -3);
    assert_eq!(vm.remainder, (-1i32) as u32);
    assert_eq!(vm.pc, 4);

    let mut vm = machine(vec![Opcode::DIV as u8, 0, 1, 2]);
    vm.regs[0] = 7;
    vm.regs[1] = -2;
    vm.step();
    assert_eq!(vm.regs[2], -3);
    assert_eq!(vm.remainder, 1);

    let mut vm = machine(vec![Opcode::DIV as u8, 0, 1, 2]);
    vm.regs[0] = i32::MIN;
    vm.regs[1] = -1;
    assert_eq!(vm.fault(), Some(Fault::DivideOverflow));
}

#[test]
fn jump_out_of_range_halts_at_the_next_fetch() {
    let mut vm = machine(vec![Opcode::JMP as u8, 1, 0, 0]);
    vm.regs[1] = 1000;
    assert_eq!(vm.fault(), None);
    assert!(!vm.step());
    assert_eq!(vm.pc, 1000);
    assert_eq!(vm.fault(), None);
    assert!(vm.step());
    assert_eq!(vm.pc, 1000);

    let mut vm = machine(vec![Opcode::JMP as u8, 1, 0, 0]);
    vm.regs[1] = -1;
    assert!(vm.run());
    assert_eq!(vm.pc, usize::MAX);
    let kinds: Vec<VMEventType> = vm.events.iter().map(|e| e.event).collect();
    assert_eq!(kinds, vec![VMEventType::Start, VMEventType::Stop]);
}

#[test]
fn relative_jumps_wrap() {
    let mut vm = machine(vec![Opcode::JMPB as u8, 1]);
    vm.regs[1] = 3;
    vm.step();
    assert_eq!(vm.pc, usize::MAX);

    let mut vm = machine(vec![Opcode::JMPF as u8, 1]);
    vm.regs[1] = -2;
    vm.step();
    assert_eq!(vm.pc, 0);

    let mut vm = machine(vec![Opcode::JMPB as u8, 1]);
    vm.regs[1] = -4;
    vm.step();
    assert_eq!(vm.pc, 6);
}

#[test]
fn nop_moves_past_four_bytes() {
    let mut vm = machine(vec![Opcode::NOP as u8, 0, 0, 0, Opcode::HLT as u8]);
    assert!(!vm.step());
    assert_eq!(vm.pc, 4);
    assert!(vm.step());
    assert_eq!(vm.pc, 5);
}

#[test]
fn mov_neg_inc_dec_not_and_or() {
    let mut vm = machine(vec![
        Opcode::MOV as u8,
        1,
        0,
        0,
        Opcode::NEG as u8,
        1,
        0,
        0,
        Opcode::INC as u8,
        2,
        0,
        0,
        Opcode::DEC as u8,
        3,
        0,
        0,
        Opcode::NOT as u8,
        4,
        0,
        0,
        Opcode::AND as u8,
        5,
        6,
        7,
        Opcode::OR as u8,
        5,
        6,
        8,
        Opcode::HLT as u8,
    ]);
    vm.regs[0] = 42;
    vm.regs[2] = i32::MAX;
    vm.regs[3] = i32::MIN;
    vm.regs[4] = 0x0f0f;
    vm.regs[5] = 0b1100;
    vm.regs[6] = 0b1010;
    assert!(vm.run());
    assert_eq!(vm.regs[0], 42);
    assert_eq!(vm.regs[1], -42);
    assert_eq!(vm.regs[2], i32::MIN);
    assert_eq!(vm.regs[3], i32::MAX);
    assert_eq!(vm.regs[4], !0x0f0f);
    assert_eq!(vm.regs[7], 0b1000);
    assert_eq!(vm.regs[8], 0b1110);
    assert_eq!(vm.pc, 29);
}

#[test]
fn neg_of_the_least_number_wraps() {
    let mut vm = machine(vec![Opcode::NEG as u8, 0, 0, 0]);
    vm.regs[0] = i32::MIN;
    vm.step();
    assert_eq!(vm.regs[0], i32::MIN);
}

#[test]
fn arithmetic_wraps() {
    let mut vm = machine(vec![
        Opcode::ADD as u8,
        0,
        1,
        2,
        Opcode::SUB as u8,
        3,
        1,
        4,
        Opcode::MUL as u8,
        0,
        0,
        5,
    ]);
    vm.regs[0] = i32::MAX;
    vm.regs[1] = 1;
    vm.regs[3] = i32::MIN;
    vm.step();
    vm.step();
    vm.step();
    assert_eq!(vm.regs[2], i32::MIN);
    assert_eq!(vm.regs[4], i32::MAX);
    assert_eq!(vm.regs[5], i32::MAX.wrapping_mul(i32::MAX));
}

#[test]
fn faults_are_found_before_the_step() {
    let vm = machine(vec![Opcode::LOAD as u8, 0]);
    assert_eq!(vm.fault(), Some(Fault::TruncatedInstruction));
    let vm = machine(vec![Opcode::ADD as u8, 0, 1, 32]);
    assert_eq!(vm.fault(), Some(Fault::RegisterOutOfRange));
    let vm = machine(vec![Opcode::LOAD as u8, 32, 0, 0]);
    assert_eq!(vm.fault(), Some(Fault::RegisterOutOfRange));
    let vm = machine(vec![Opcode::LOAD as u8, 31, 255, 255]);
    assert_eq!(vm.fault(), None);
    let mut vm = machine(vec![Opcode::ALOC as u8, 0]);
    vm.regs[0] = -1;
    assert_eq!(vm.fault(), Some(Fault::HeapOutOfRange));
    let mut vm = machine(vec![Opcode::PRTS as u8, 0, 4, 0]);
    vm.ro_data = vec![0x48, 0x69, 0];
    assert_eq!(vm.fault(), Some(Fault::DataOutOfRange));
    let mut vm = machine(vec![Opcode::PRTS as u8, 0, 0, 0]);
    vm.ro_data = vec![0xff, 0xfe, 0];
    assert_eq!(vm.fault(), Some(Fault::InvalidText));
    let vm = machine(vec![Opcode::HLT as u8]);
    assert_eq!(vm.fault(), None);
    let vm = machine(vec![200]);
    assert_eq!(vm.fault(), None);
    let vm = machine(vec![]);
    assert_eq!(vm.fault(), None);
}

#[test]
fn aloc_grows_and_shrinks_the_heap() {
    let mut vm = machine(vec![Opcode::ALOC as u8, 0, 0, 0, Opcode::ALOC as u8, 1, 0, 0]);
    vm.regs[0] = 10;
    vm.regs[1] = -4;
    vm.heap = vec![7, 7];
    vm.step();
    assert_eq!(vm.heap, vec![7, 7, 0, 0, 0, 0, 0, 0, 0, 0, 0, 0]);
    vm.step();
    assert_eq!(vm.heap, vec![7, 7, 0, 0, 0, 0, 0, 0]);
    assert_eq!(vm.pc, 8);
}

#[test]
fn prts_writes_the_string_at_its_offset() {
    let mut vm = machine(vec![
        Opcode::PRTS as u8,
        0,
        3,
        0,
        Opcode::PRTS as u8,
        0,
        0,
        0,
        Opcode::PRTS as u8,
        0,
        9,
        0,
        Opcode::HLT as u8,
    ]);
    vm.ro_data = "Hi\0gr\u{fc}n\0x".as_bytes().to_vec();
    assert_eq!(vm.ro_data.len(), 10);
    assert!(vm.run());
    assert_eq!(vm.output, vec!["gr\u{fc}n".to_string(), "Hi".to_string(), "x".to_string()]);
    assert_eq!(vm.pc, 13);
}

#[test]
fn a_run_stops_at_its_step_limit() {
    let mut vm = machine(vec![Opcode::JMP as u8, 0, 0, 0]);
    vm.regs[0] = 0;
    assert_eq!(vm.run_bounded(1000), RunOutcome::StepLimit);
    assert_eq!(vm.pc, 0);
    assert_eq!(vm.events.len(), 2);

    let mut vm = machine(vec![Opcode::INC as u8, 0, 0, 0, Opcode::HLT as u8]);
    assert_eq!(vm.run_bounded(1), RunOutcome::StepLimit);
    assert_eq!(vm.regs[0], 1);
    assert_eq!(vm.pc, 4);
    assert_eq!(vm.run_bounded(1), RunOutcome::Halted);
    assert_eq!(vm.pc, 5);
    assert_eq!(vm.run_bounded(0), RunOutcome::StepLimit);
}

#[test]
fn a_run_reports_the_fault_it_met() {
    let mut vm = machine(vec![Opcode::INC as u8, 0, 0, 0, Opcode::ADD as u8, 0, 0, 40]);
    assert_eq!(vm.run_bounded(10), RunOutcome::Faulted(Fault::RegisterOutOfRange));
    assert_eq!(vm.regs[0], 1);
    assert_eq!(vm.pc, 4);
}

#[test]
fn machines_have_their_own_identifiers() {
    let a = VM::new();
    let b = VM::new();
    assert_ne!(a.id, b.id);
    let c = a.clone();
    assert_eq!(a.id, c.id);
}

#[test]
fn the_program_the_data_and_the_counter_can_be_set() {
    let mut vm = VM::new();
    vm.regs[4] = 9;
    vm.load_program(vec![Opcode::HLT as u8]);
    vm.load_ro(vec![1, 2, 3]);
    vm.set_pc(7);
    assert_eq!(vm.program, vec![Opcode::HLT as u8]);
    assert_eq!(vm.ro_data, vec![1, 2, 3]);
    assert_eq!(vm.pc, 7);
    assert_eq!(vm.regs[4], 9);
    vm.load_program(vec![]);
    assert!(vm.program.is_empty());
    assert_eq!(vm.pc, 7);
}
