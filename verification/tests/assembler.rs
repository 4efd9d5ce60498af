use pie_vm::assembler::parser_program::program;
use pie_vm::assembler::{
    Assembler, AssemblerError, AssemblerPhase, AssemblerSection, Refusal, Symbol, SymbolType,
    PIE_HEADER_LENGTH, PIE_HEADER_PREFIX,
};
use pie_vm::instruction::Opcode;
use pie_vm::vm::VM;

#[test]
fn test_assemble_program() {
    let mut assembler = Assembler::new();
    let code = "load $0 #100\nload $1 #99\nlab:inc $0\njmp @test\nhlt";
    let errors = assembler.assemble(code).unwrap_err();
    assert_eq!(errors, vec![AssemblerError::NoSegmentFor(8, "lab".to_string())]);
}

#[test]
fn test_ro_data() {
    let mut assembler = Assembler::new();
    let prog = assembler
        .assemble(
            ".data
            str: .asciiz 'Test String'
            .code
            hlt
            ",
        )
        .unwrap();
    assert_eq!(assembler.symbols.has_symbol(&String::from("str")), true);
    assert_eq!(assembler.symbols.symbol_value("str").unwrap(), 0);
    assert_eq!(assembler.ro, "Test String\0".as_bytes());
    assert_eq!(prog.len(), PIE_HEADER_LENGTH + 4);
}

fn header() -> Vec<u8> {
    let mut h = vec![0x7e, b'P', b'I', b'E'];
    h.resize(64, 0);
    h
}

#[test]
fn the_header_is_the_magic_and_zeros() {
    assert_eq!(PIE_HEADER_PREFIX, [0x7e, b'P', b'I', b'E']);
    assert_eq!(PIE_HEADER_LENGTH, 64);
    let assembler = Assembler::new();
    assert_eq!(assembler.write_pie_header(), header());
}

#[test]
fn load_and_halt_assemble_and_run() {
    let mut assembler = Assembler::new();
    let image = assembler.assemble(".code\nload $0 #500\nhlt").unwrap();
    assert_eq!(image[..64], header()[..]);
    assert_eq!(
        image[64..],
        [Opcode::LOAD as u8, 0, 0x01, 0xf4, Opcode::HLT as u8, 0, 0, 0]
    );
    let mut vm = VM::new();
    vm.program = image;
    vm.pc = PIE_HEADER_LENGTH;
    assert!(vm.run());
    assert_eq!(vm.regs[0], 500);
}

#[test]
fn load_and_halt_assemble_in_a_code_section_that_is_open() {
    let mut assembler = Assembler::new();
    assembler.assemble(".code\nhlt").unwrap();
    let image = assembler.assemble("load $0 #500\nhlt").unwrap();
    assert_eq!(image.len(), 72);
    assert_eq!(
        image[64..],
        [Opcode::LOAD as u8, 0, 0x01, 0xf4, Opcode::HLT as u8, 0, 0, 0]
    );
    let mut vm = VM::new();
    vm.load_program(image);
    vm.set_pc(PIE_HEADER_LENGTH);
    assert!(vm.run());
    assert_eq!(vm.regs[0], 500);
    assert_eq!(vm.pc, 69);
}

#[test]
fn load_and_halt_without_a_code_section_give_no_image() {
    let mut assembler = Assembler::new();
    let errors = assembler.assemble("load $0 #500\nhlt").unwrap_err();
    assert_eq!(errors, vec![]);
    assert_eq!(assembler.phase, AssemblerPhase::Second);
}

#[test]
fn the_bytes_of_load_and_halt() {
    let prog = program("load $0 #500\nhlt").unwrap().1;
    assert!(prog.plain());
    assert_eq!(
        prog.to_bytes(),
        vec![Opcode::LOAD as u8, 0, 0x01, 0xf4, Opcode::HLT as u8, 0, 0, 0]
    );
}

#[test]
fn division_scenario() {
    let mut assembler = Assembler::new();
    let image = assembler
        .assemble(".code\nload $0 #2\nload $1 #3\ndiv $0 $1 $2\nhlt")
        .unwrap();
    assert_eq!(image.len(), 64 + 4 * 4);
    let mut vm = VM::new();
    vm.program = image;
    vm.pc = 64;
    assert!(vm.run());
    assert_eq!(vm.regs[2], 0);
    assert_eq!(vm.remainder, 2);
}

#[test]
fn division_scenario_from_a_bare_code_buffer() {
    let prog = program("load $0 #2\nload $1 #3\ndiv $0 $1 $2\nhlt").unwrap().1;
    let mut vm = VM::new();
    vm.load_program(prog.to_bytes());
    assert!(vm.run());
    assert_eq!(vm.regs[2], 0);
    assert_eq!(vm.remainder, 2);
}

#[test]
fn equality_scenario() {
    let prog = program("load $0 #1\nload $1 #1\neq $0 $1\nhlt").unwrap().1;
    let mut vm = VM::new();
    vm.program = prog.to_bytes();
    assert!(vm.run());
    assert_eq!(vm.bool_flag, true);
    assert_eq!(vm.pc, 13);
}

#[test]
fn string_scenario() {
    let mut assembler = Assembler::new();
    let image = assembler.assemble(".data\nstr: .asciiz 'Hi'\n.code\nhlt").unwrap();
    assert_eq!(assembler.ro, vec![0x48, 0x69, 0x00]);
    assert_eq!(assembler.symbols.symbol_value("str"), Some(0));
    let mut expected = header();
    expected.extend_from_slice(&[Opcode::HLT as u8, 0, 0, 0]);
    assert_eq!(image, expected);
}

#[test]
fn asciiz_appends_the_bytes_and_a_zero() {
    let mut assembler = Assembler::new();
    assembler
        .assemble(".data\na: .asciiz 'Hi'\nb: .asciiz 'gr\u{fc}n'\nc: .asciiz ''\n.code\nhlt")
        .unwrap();
    assert_eq!(assembler.ro, "Hi\0gr\u{fc}n\0\0".as_bytes());
    assert_eq!(assembler.symbols.symbol_value("a"), Some(0));
    assert_eq!(assembler.symbols.symbol_value("b"), Some(3));
    assert_eq!(assembler.symbols.symbol_value("c"), Some(9));
}

#[test]
fn a_label_in_code_resolves_to_four_times_its_line() {
    let mut assembler = Assembler::new();
    assembler.assemble(".code\nhlt").unwrap();
    let image = assembler.assemble("load $0 #100\nlab:inc $0\njmp @lab\nhlt").unwrap();
    assert_eq!(assembler.symbols.symbol_value("lab"), Some(4));
    assert_eq!(
        image[64..],
        [
            Opcode::LOAD as u8,
            0,
            0,
            100,
            Opcode::INC as u8,
            0,
            0,
            0,
            Opcode::JMP as u8,
            0x00,
            0x04,
            0,
            Opcode::HLT as u8,
            0,
            0,
            0
        ]
    );
}

#[test]
fn a_label_after_a_directive_counts_the_directive_line() {
    let mut assembler = Assembler::new();
    let image = assembler.assemble(".code\nlab: hlt\njmp @lab").unwrap();
    assert_eq!(assembler.symbols.symbol_value("lab"), Some(4));
    assert_eq!(image[64..], [Opcode::HLT as u8, 0, 0, 0, Opcode::JMP as u8, 0, 4, 0]);
}

#[test]
fn a_label_declared_twice_is_an_error() {
    let mut assembler = Assembler::new();
    let errors = assembler.assemble(".code\nlab: hlt\nnop\nlab: hlt").unwrap_err();
    assert_eq!(errors, vec![AssemblerError::SymbolRedeclared(3, "lab".to_string())]);
    assert!(errors.iter().any(|e| matches!(e, AssemblerError::SymbolRedeclared(_, _))));
}

#[test]
fn every_error_of_the_first_pass_is_collected() {
    let mut assembler = Assembler::new();
    let errors = assembler
        .assemble("early: hlt\n.bogus\n.code\nx: .word #1\nx: hlt\nx: hlt\n.code #1")
        .unwrap_err();
    assert_eq!(
        errors,
        vec![
            AssemblerError::NoSegmentFor(0, "early".to_string()),
            AssemblerError::UnknownDirective(4, "bogus".to_string()),
            AssemblerError::UnknownDirective(12, "word".to_string()),
            AssemblerError::SymbolRedeclared(4, "x".to_string()),
            AssemblerError::SymbolRedeclared(5, "x".to_string()),
        ]
    );
    assert_eq!(assembler.sections, vec![AssemblerSection::Code]);
    assert_eq!(assembler.current_section, Some(AssemblerSection::Code));
    assert_eq!(assembler.symbols.symbol_value("x"), Some(12));
}

#[test]
fn a_text_without_a_program_is_a_parse_error() {
    let mut assembler = Assembler::new();
    let errors = assembler.assemble("#1").unwrap_err();
    assert_eq!(errors, vec![AssemblerError::ParseError("expected a program".to_string())]);
    assert_eq!(assembler.phase, AssemblerPhase::First);
    assert_eq!(assembler.try_assemble(""), Ok(Err(errors)));
}

#[test]
fn code_is_four_bytes_for_each_opcode() {
    let sources = [
        ".code\nhlt",
        ".code\nload $1 #2\nadd $1 $1 $2\n.data\ns: .asciiz 'x'\nprts @s\nhlt",
        ".code\nnop\nnop\nnop",
        ".data\n.code\n.data\nlab: jmp @lab",
    ];
    let opcodes = [1, 4, 3, 1];
    for (source, n) in sources.iter().zip(opcodes) {
        let mut assembler = Assembler::new();
        let image = assembler.assemble(source).unwrap();
        assert_eq!(image.len(), 64 + 4 * n);
        assert_eq!((image.len() - 64) % 4, 0);
        assert_eq!(image[..64], header()[..]);
    }
}

#[test]
fn operands_that_do_not_fit_three_bytes_are_not_encoded() {
    let mut assembler = Assembler::new();
    assert_eq!(assembler.try_assemble(".code\nadd #1 #2 #3\nhlt"), Err(Refusal::TooWide));
    let mut assembler = Assembler::new();
    assert_eq!(assembler.try_assemble(".code\nload $0 #1 #2"), Err(Refusal::TooWide));
    assert_eq!(assembler.phase, AssemblerPhase::Second);
    let mut assembler = Assembler::new();
    let image = assembler.try_assemble(".code\nload $0 #1\nmov $1 $2 $3").unwrap().unwrap();
    assert_eq!(image.len(), 64 + 8);
    assert_eq!(
        image[64..],
        [Opcode::LOAD as u8, 0, 0, 1, Opcode::MOV as u8, 1, 2, 3]
    );
}

#[test]
fn new_assemblers_give_the_same_for_the_same_text() {
    let source = ".data\ns: .asciiz 'Hi'\n.code\nstart: load $0 #7\njmp @start\nhlt";
    let mut a = Assembler::new();
    let mut b = Assembler::new();
    let first = a.assemble(source);
    let second = b.assemble(source);
    assert!(first.is_ok());
    assert_eq!(first, second);
    assert_eq!(a.ro, b.ro);
    assert_eq!(a.symbols.symbol_value("start"), b.symbols.symbol_value("start"));
    let again = a.assemble(source).unwrap_err();
    assert_eq!(
        again,
        vec![
            AssemblerError::SymbolRedeclared(1, "s".to_string()),
            AssemblerError::SymbolRedeclared(3, "start".to_string()),
        ]
    );
    assert_eq!(a.ro, b.ro);
}

#[test]
fn try_assemble_tells_what_cannot_be_encoded() {
    let mut assembler = Assembler::new();
    assert_eq!(assembler.try_assemble(".code\njmp @nowhere"), Err(Refusal::UnknownLabel));
    assert_eq!(assembler.phase, AssemblerPhase::Second);
    let mut assembler = Assembler::new();
    assert_eq!(assembler.try_assemble(".code\nprts 'text'"), Err(Refusal::BadOperand));
    let mut assembler = Assembler::new();
    assert_eq!(
        assembler.try_assemble(".code\nhlt\nadd @nowhere 'text'\nprts 'text'"),
        Err(Refusal::UnknownLabel)
    );
    let mut assembler = Assembler::new();
    assert_eq!(
        assembler.try_assemble(".code\nprts #1 'text' @nowhere"),
        Err(Refusal::BadOperand)
    );
    let mut assembler = Assembler::new();
    assert_eq!(
        assembler.try_assemble(".code\nadd #1 #2 @nowhere"),
        Err(Refusal::UnknownLabel)
    );
    let mut assembler = Assembler::new();
    let image = assembler.try_assemble(".code\nhlt").unwrap().unwrap();
    assert_eq!(image.len(), 68);
    let mut assembler = Assembler::new();
    let outcome = assembler.try_assemble("jmp @nowhere").unwrap();
    assert_eq!(outcome, Err(vec![]));
}

#[test]
fn try_assemble_gives_the_same_on_new_assemblers() {
    for source in [
        ".code\nload $0 #7\nhlt",
        ".code\njmp @nowhere",
        "lab: hlt",
        "",
        ".data\ns: .asciiz 'Hi'\n.code\nprts @s\nhlt",
    ] {
        let mut a = Assembler::new();
        let mut b = Assembler::new();
        assert_eq!(a.try_assemble(source), b.try_assemble(source));
        assert_eq!(a.ro, b.ro);
        assert_eq!(a.errors, b.errors);
        assert_eq!(a.sections, b.sections);
        assert_eq!(a.phase, b.phase);
        assert_eq!(a.symbols.len(), b.symbols.len());
        for (x, y) in a.symbols.symbols.iter().zip(b.symbols.symbols.iter()) {
            assert_eq!(x.name, y.name);
            assert_eq!(x.offset, y.offset);
        }
    }
}

#[test]
fn the_first_defect_of_a_program_is_reported() {
    let st = pie_vm::assembler::SymbolTable::new();
    let prog = program("x: .asciiz 'Hi'\nhlt\nadd #1 #2 #3\njmp @l").unwrap().1;
    assert_eq!(prog.defect(&st), Some(Refusal::TooWide));
    assert!(!prog.can_emit(&st));
    assert_eq!(prog.instructions[0].defect(&st), Some(Refusal::BadOperand));
    assert_eq!(prog.instructions[1].defect(&st), None);
    assert_eq!(prog.instructions[3].defect(&st), Some(Refusal::UnknownLabel));
    let prog = program("x: .asciiz 'Hi'\nhlt").unwrap().1;
    assert_eq!(prog.defect(&st), None);
    assert!(prog.can_emit(&st));
}

#[test]
fn the_passes_can_be_run_one_by_one() {
    let prog = program(".code\nlab: inc $1\njmp @lab").unwrap().1;
    let mut assembler = Assembler::new();
    assembler.process_first_phase(&prog);
    assert_eq!(assembler.phase, AssemblerPhase::Second);
    assert_eq!(assembler.errors, vec![]);
    assert!(prog.can_emit(&assembler.symbols));
    let code = assembler.process_second_phase(&prog);
    assert_eq!(code, vec![Opcode::INC as u8, 1, 0, 0, Opcode::JMP as u8, 0, 4, 0]);
}

#[test]
fn asciiz_works_in_the_first_phase_only() {
    let prog = program("s: .asciiz 'Hi'").unwrap().1;
    let line = &prog.instructions[0];
    let mut assembler = Assembler::new();
    assembler.symbols.add_symbol(Symbol::new("s".to_string(), SymbolType::Label, 77));
    assembler.ro = vec![1, 2];
    assembler.do_asciiz(line);
    assert_eq!(assembler.ro, vec![1, 2, 0x48, 0x69, 0]);
    assert_eq!(assembler.symbols.symbol_value("s"), Some(2));
    assembler.phase = AssemblerPhase::Second;
    assembler.do_asciiz(line);
    assert_eq!(assembler.ro, vec![1, 2, 0x48, 0x69, 0]);
}
