use pie_vm::assembler::parser_directive::{directive, directive_all, directive_declaration};
use pie_vm::assembler::parser_instruction::{
    instruction, instruction_all, instruction_one, instruction_three, instruction_two,
    instruction_zero, AssemblerInstruction,
};
use pie_vm::assembler::parser_label::{label_declaration, label_usage};
use pie_vm::assembler::parser_op::opcode;
use pie_vm::assembler::parser_operand::{integer_operand, operand, string_operand};
use pie_vm::assembler::parser_program::{program, Program};
use pie_vm::assembler::parser_reg::register;
use pie_vm::assembler::{ParseError, Symbol, SymbolTable, SymbolType, Token};
use pie_vm::instruction::Opcode;

#[test]
fn test_parse_reg() {
    assert_eq!(register("$0").is_ok(), true);
    assert_eq!(register("$1").is_ok(), true);
    assert_eq!(register("0").is_ok(), false);
    assert_eq!(register("$a").is_ok(), false);
    assert_eq!(register("$0").unwrap(), ("", Token::Reg { reg: 0 }));
    assert_eq!(register("$0 ").unwrap(), ("", Token::Reg { reg: 0 }));
    assert_eq!(register("$0 a").unwrap(), ("a", Token::Reg { reg: 0 }));
}

#[test]
fn test_opcode() {
    let r = opcode("load");
    assert_eq!(r.is_ok(), true);
    let (r, token) = r.unwrap();
    assert_eq!(token, Token::Op { code: Opcode::LOAD });
    assert_eq!(r, "");
    assert_eq!(
        opcode("invalid").unwrap().1,
        Token::Op { code: Opcode::IGL }
    );
}

#[test]
fn test_parse_label_declaration() {
    assert_eq!(
        label_declaration(" test: "),
        Ok((
            "",
            Token::LabelDeclaration {
                name: "test".to_string()
            }
        ))
    );
    assert_eq!(label_declaration(" test_ ").is_ok(), false);
}

#[test]
fn test_parse_label_usage() {
    assert_eq!(
        label_usage(" @test "),
        Ok((
            "",
            Token::LabelUsage {
                name: "test".to_string()
            }
        ))
    );
}

#[test]
fn test_parse_integer_operand() {
    assert_eq!(
        integer_operand("#0").unwrap(),
        ("", Token::IntegerOperand { i: 0 })
    );
    assert_eq!(
        integer_operand("#10").unwrap(),
        ("", Token::IntegerOperand { i: 10 })
    );
    assert_eq!(integer_operand("1").is_ok(), false);
}

#[test]
fn test_parse_string_operand() {
    assert_eq!(
        string_operand("'hi'").unwrap(),
        (
            "",
            Token::String {
                name: "hi".to_string()
            }
        )
    );
}

#[test]
fn test_string_directive() {
    assert_eq!(
        directive_all("test: .asciiz 'Hi'"),
        Ok((
            "",
            AssemblerInstruction {
                opcode: None,
                label: Some(Token::LabelDeclaration {
                    name: "test".to_string()
                }),
                directive: Some(Token::Directive {
                    name: "asciiz".to_string()
                }),
                operand1: Some(Token::String {
                    name: "Hi".to_string()
                }),
                operand2: None,
                operand3: None,
            }
        ))
    );
}

#[test]
fn test_parse_instruction_two() {
    assert_eq!(
        instruction_two("load  $0     #100 \n"),
        Ok((
            "",
            AssemblerInstruction {
                opcode: Some(Token::Op { code: Opcode::LOAD }),
                operand1: Some(Token::Reg { reg: 0 }),
                operand2: Some(Token::IntegerOperand { i: 100 }),
                operand3: None,
                label: None,
                directive: None,
            }
        ))
    )
}

#[test]
fn test_parse_program() {
    assert_eq!(
        program("load $0 #0\n"),
        Ok((
            "",
            Program {
                instructions: vec![AssemblerInstruction {
                    opcode: Some(Token::Op { code: Opcode::LOAD }),
                    operand1: Some(Token::Reg { reg: 0 }),
                    operand2: Some(Token::IntegerOperand { i: 0 }),
                    operand3: None,
                    directive: None,
                    label: None,
                }]
            }
        ))
    );
    assert_eq!(
        program("load $0 #0\nload $1 #100"),
        Ok((
            "",
            Program {
                instructions: vec![
                    AssemblerInstruction {
                        opcode: Some(Token::Op { code: Opcode::LOAD }),
                        operand1: Some(Token::Reg { reg: 0 }),
                        operand2: Some(Token::IntegerOperand { i: 0 }),
                        operand3: None,
                        directive: None,
                        label: None,
                    },
                    AssemblerInstruction {
                        opcode: Some(Token::Op { code: Opcode::LOAD }),
                        operand1: Some(Token::Reg { reg: 1 }),
                        operand2: Some(Token::IntegerOperand { i: 100 }),
                        operand3: None,
                        directive: None,
                        label: None,
                    }
                ]
            }
        ))
    );
}

#[test]
fn test_program_to_bytes() {
    let prog = program("load $2 #100\n").unwrap().1;
    assert_eq!(prog.to_bytes().len(), 4);
    assert_eq!(prog.to_bytes()[0], Opcode::LOAD as u8);
    assert_eq!(prog.to_bytes()[1], 02u8);
    assert_eq!(prog.to_bytes()[2], 0);
    assert_eq!(prog.to_bytes()[3], 100u8);
}

fn op(code: Opcode) -> Option<Token> {
    Some(Token::Op { code })
}

fn reg(reg: u8) -> Option<Token> {
    Some(Token::Reg { reg })
}

fn num(i: i32) -> Option<Token> {
    Some(Token::IntegerOperand { i })
}

fn line(
    label: Option<&str>,
    opcode: Option<Token>,
    operands: [Option<Token>; 3],
) -> AssemblerInstruction {
    let [operand1, operand2, operand3] = operands;
    AssemblerInstruction {
        directive: None,
        label: label.map(|l| Token::LabelDeclaration { name: l.to_string() }),
        opcode,
        operand1,
        operand2,
        operand3,
    }
}

#[test]
fn registers_must_fit_a_byte() {
    assert_eq!(register("$255"), Ok(("", Token::Reg { reg: 255 })));
    assert_eq!(register("$256"), Err(ParseError::Register));
    assert_eq!(register("$0031"), Ok(("", Token::Reg { reg: 31 })));
    assert_eq!(register("$00000000000000000000000007 \t\r\n x"), Ok(("x", Token::Reg { reg: 7 })));
    assert_eq!(register("$99999999999999999999999999"), Err(ParseError::Register));
    assert_eq!(register("$"), Err(ParseError::Register));
    assert_eq!(register(" $1"), Err(ParseError::Register));
    assert_eq!(register(""), Err(ParseError::Register));
    assert_eq!(register("$1\u{a0}"), Ok(("\u{a0}", Token::Reg { reg: 1 })));
}

#[test]
fn integers_must_fit_31_bits() {
    assert_eq!(integer_operand("#2147483647"), Ok(("", Token::IntegerOperand { i: i32::MAX })));
    assert_eq!(integer_operand("#2147483648"), Err(ParseError::IntegerOperand));
    assert_eq!(integer_operand("#007"), Ok(("", Token::IntegerOperand { i: 7 })));
    assert_eq!(integer_operand("#"), Err(ParseError::IntegerOperand));
    assert_eq!(integer_operand("#-1"), Err(ParseError::IntegerOperand));
    assert_eq!(integer_operand("#1a"), Ok(("a", Token::IntegerOperand { i: 1 })));
}

#[test]
fn integers_and_strings_are_read_from_the_trimmed_text() {
    assert_eq!(
        integer_operand(" \n\u{a0}\t#5 \n x \u{3000}\n"),
        Ok(("x", Token::IntegerOperand { i: 5 }))
    );
    assert_eq!(integer_operand("  #5\n\n"), Ok(("", Token::IntegerOperand { i: 5 })));
    assert_eq!(
        string_operand("\n 'a b' tail \n"),
        Ok((" tail", Token::String { name: "a b".to_string() }))
    );
    assert_eq!(string_operand("''"), Ok(("", Token::String { name: "".to_string() })));
    assert_eq!(string_operand("'open"), Err(ParseError::StringOperand));
    assert_eq!(string_operand("'"), Err(ParseError::StringOperand));
    assert_eq!(string_operand("x'y'"), Err(ParseError::StringOperand));
    assert_eq!(
        string_operand("'gr\u{fc}n \u{1f600}'!"),
        Ok(("!", Token::String { name: "gr\u{fc}n \u{1f600}".to_string() }))
    );
}

#[test]
fn labels_are_words_of_letters() {
    assert_eq!(
        label_declaration("ab :\tcd"),
        Ok(("cd", Token::LabelDeclaration { name: "ab".to_string() }))
    );
    assert_eq!(label_declaration("a1:"), Err(ParseError::LabelDeclaration));
    assert_eq!(label_declaration(":"), Err(ParseError::LabelDeclaration));
    assert_eq!(label_declaration("\nab:"), Err(ParseError::LabelDeclaration));
    assert_eq!(
        label_usage("@ \tab\t x"),
        Ok(("x", Token::LabelUsage { name: "ab".to_string() }))
    );
    assert_eq!(label_usage("@1"), Err(ParseError::LabelUsage));
    assert_eq!(label_usage("ab"), Err(ParseError::LabelUsage));
    assert_eq!(
        label_usage("@Ab\n"),
        Ok(("\n", Token::LabelUsage { name: "Ab".to_string() }))
    );
}

#[test]
fn opcodes_are_words_of_letters() {
    assert_eq!(opcode("HLT  \tx"), Ok(("x", Token::Op { code: Opcode::HLT })));
    assert_eq!(opcode("hlt\nx"), Ok(("\nx", Token::Op { code: Opcode::HLT })));
    assert_eq!(opcode("jmpf1"), Ok(("1", Token::Op { code: Opcode::JMPF })));
    assert_eq!(opcode(" hlt"), Err(ParseError::Opcode));
    assert_eq!(opcode("1"), Err(ParseError::Opcode));
    assert_eq!(opcode(""), Err(ParseError::Opcode));
}

#[test]
fn an_operand_is_the_first_kind_that_matches() {
    assert_eq!(operand("#1 $2"), Ok(("$2", Token::IntegerOperand { i: 1 })));
    assert_eq!(operand(" @a #1"), Ok(("#1", Token::LabelUsage { name: "a".to_string() })));
    assert_eq!(operand("$3\n"), Ok(("", Token::Reg { reg: 3 })));
    assert_eq!(operand("  'x'"), Ok(("", Token::String { name: "x".to_string() })));
    assert_eq!(operand(" $3"), Err(ParseError::Operand));
    assert_eq!(operand("hlt"), Err(ParseError::Operand));
}

#[test]
fn directives_start_with_a_dot() {
    assert_eq!(
        directive_declaration(".code \t\nx"),
        Ok(("\nx", Token::Directive { name: "code".to_string() }))
    );
    assert_eq!(directive_declaration("code"), Err(ParseError::Directive));
    assert_eq!(directive_declaration(". code"), Err(ParseError::Directive));
    let expected = AssemblerInstruction {
        directive: Some(Token::Directive { name: "data".to_string() }),
        label: None,
        opcode: None,
        operand1: None,
        operand2: None,
        operand3: None,
    };
    assert_eq!(directive("  .data\n  rest \n"), Ok(("\n  rest", expected)));
    assert_eq!(directive("hlt"), Err(ParseError::Directive));
    let with_operands = AssemblerInstruction {
        directive: Some(Token::Directive { name: "blob".to_string() }),
        label: Some(Token::LabelDeclaration { name: "x".to_string() }),
        opcode: None,
        operand1: num(1),
        operand2: reg(2),
        operand3: Some(Token::LabelUsage { name: "y".to_string() }),
    };
    assert_eq!(directive_all("x: .blob #1 $2 @y  tail"), Ok(("tail", with_operands)));
}

#[test]
fn the_shapes_of_a_line_with_an_opcode() {
    assert_eq!(
        instruction_zero(" \n hlt \n "),
        Ok(("", line(None, op(Opcode::HLT), [None, None, None])))
    );
    assert_eq!(
        instruction_zero("hlt $1"),
        Ok(("$1", line(None, op(Opcode::HLT), [None, None, None])))
    );
    assert_eq!(
        instruction_one("inc\n$4\nx"),
        Ok(("x", line(None, op(Opcode::INC), [reg(4), None, None])))
    );
    assert_eq!(
        instruction_one("prts #4"),
        Ok(("", line(None, op(Opcode::PRTS), [num(4), None, None])))
    );
    assert_eq!(instruction_one("hlt"), Err(ParseError::Instruction));
    assert_eq!(instruction_two("load $1"), Err(ParseError::Instruction));
    assert_eq!(
        instruction_three("x $1 #2 #3 #4"),
        Ok(("#4", line(None, op(Opcode::IGL), [reg(1), num(2), num(3)])))
    );
    assert_eq!(instruction_three("add $1 $2 $3"), Err(ParseError::Instruction));
    assert_eq!(
        instruction_all("\n\n  lab: add $1 $2 $3  \nhlt"),
        Ok(("hlt", line(Some("lab"), op(Opcode::ADD), [reg(1), reg(2), reg(3)])))
    );
    assert_eq!(
        instruction_all("jmp @lab"),
        Ok((
            "",
            line(
                None,
                op(Opcode::JMP),
                [Some(Token::LabelUsage { name: "lab".to_string() }), None, None]
            )
        ))
    );
    assert_eq!(instruction_all("$1"), Err(ParseError::Instruction));
    assert_eq!(instruction_all("\u{a0}hlt"), Err(ParseError::Instruction));
}

#[test]
fn a_line_is_the_first_shape_that_matches() {
    let expected = AssemblerInstruction {
        directive: Some(Token::Directive { name: "code".to_string() }),
        label: None,
        opcode: None,
        operand1: None,
        operand2: None,
        operand3: None,
    };
    assert_eq!(instruction(".code\nhlt"), Ok(("\nhlt", expected)));
    assert_eq!(
        instruction("hlt\n"),
        Ok(("\n", line(None, op(Opcode::HLT), [None, None, None])))
    );
    assert_eq!(
        instruction("\u{a0}load $1 #2\n"),
        Ok(("", line(None, op(Opcode::LOAD), [reg(1), num(2), None])))
    );
    assert_eq!(
        instruction("\u{c}hlt"),
        Ok(("", line(None, op(Opcode::HLT), [None, None, None])))
    );
    assert_eq!(
        instruction("lab: $1"),
        Ok((": $1", line(None, op(Opcode::IGL), [None, None, None])))
    );
    assert_eq!(instruction("#1"), Err(ParseError::Instruction));
    assert_eq!(instruction(""), Err(ParseError::Instruction));
}

#[test]
fn a_program_is_read_as_far_as_lines_go() {
    let (rest, prog) = program("load $0 #100\nlab:inc $0\njmp @lab\nhlt").unwrap();
    assert_eq!(rest, "");
    assert_eq!(prog.instructions.len(), 4);
    assert_eq!(prog.instructions[1], line(Some("lab"), op(Opcode::INC), [reg(0), None, None]));
    assert_eq!(
        prog.instructions[2].operand1,
        Some(Token::LabelUsage { name: "lab".to_string() })
    );

    let (rest, prog) = program("hlt\n???\nhlt").unwrap();
    assert_eq!(rest, "\n???\nhlt");
    assert_eq!(prog.instructions.len(), 1);

    assert_eq!(program(""), Err(ParseError::Program));
    assert_eq!(program("   \n"), Err(ParseError::Program));
    assert_eq!(program("#1"), Err(ParseError::Program));

    let (rest, prog) = program("load $0\n#7\nhlt").unwrap();
    assert_eq!(rest, "");
    assert_eq!(prog.instructions.len(), 2);
    assert_eq!(prog.instructions[0], line(None, op(Opcode::LOAD), [reg(0), num(7), None]));
}

#[test]
fn lines_encode_to_their_bytes() {
    let st = SymbolTable::new();
    let load = line(None, op(Opcode::LOAD), [reg(1), num(500), None]);
    assert!(load.encodable(&st));
    assert_eq!(load.to_bytes(&st), vec![Opcode::LOAD as u8, 1, 0x01, 0xf4]);
    let hlt = line(None, op(Opcode::HLT), [None, None, None]);
    assert_eq!(hlt.to_bytes(&st), vec![Opcode::HLT as u8, 0, 0, 0]);
    let add = line(None, op(Opcode::ADD), [reg(1), reg(2), reg(3)]);
    assert_eq!(add.to_bytes(&st), vec![Opcode::ADD as u8, 1, 2, 3]);
    let truncated = line(None, op(Opcode::LOAD), [reg(0), num(0x12345), None]);
    assert_eq!(truncated.to_bytes(&st), vec![Opcode::LOAD as u8, 0, 0x23, 0x45]);
    let negative = line(None, op(Opcode::LOAD), [reg(0), num(-2), None]);
    assert_eq!(negative.to_bytes(&st), vec![Opcode::LOAD as u8, 0, 0xff, 0xfe]);
    let label = line(
        None,
        op(Opcode::JEQ),
        [Some(Token::LabelUsage { name: "l".to_string() }), reg(9), None],
    );
    let mut known = SymbolTable::new();
    known.add_symbol(Symbol::new("l".to_string(), SymbolType::Label, 0x10203));
    assert!(label.encodable(&known));
    assert_eq!(label.to_bytes(&known), vec![Opcode::JEQ as u8, 0x02, 0x03, 9]);
}

#[test]
fn a_line_is_encoded_in_four_bytes_or_not_at_all() {
    let st = SymbolTable::new();
    let shapes = [
        [None, None, None],
        [reg(1), None, None],
        [num(1), None, None],
        [reg(1), reg(2), None],
        [reg(1), num(2), None],
        [num(1), reg(2), None],
        [reg(1), reg(2), reg(3)],
        [None, reg(2), num(3)],
    ];
    for operands in shapes {
        let l = line(None, op(Opcode::ADD), operands);
        assert!(l.encodable(&st));
        let bytes = l.to_bytes(&st);
        assert_eq!(bytes.len(), 4);
        assert_eq!(bytes[0], Opcode::ADD as u8);
    }
    let wide = [
        [num(1), num(2), None],
        [num(1), num(2), num(3)],
        [reg(1), num(2), num(3)],
        [reg(1), reg(2), num(3)],
        [num(1), reg(2), reg(3)],
    ];
    for operands in wide {
        assert!(!line(None, op(Opcode::ADD), operands).encodable(&st));
    }
}

#[test]
fn lines_that_cannot_be_encoded_are_told_apart() {
    let st = SymbolTable::new();
    let no_opcode = line(Some("x"), None, [None, None, None]);
    assert!(!no_opcode.encodable(&st));
    let string = line(None, op(Opcode::PRTS), [Some(Token::String { name: "s".to_string() }), None, None]);
    assert!(!string.encodable(&st));
    let unknown = line(None, op(Opcode::JMP), [Some(Token::LabelUsage { name: "l".to_string() }), None, None]);
    assert!(!unknown.encodable(&st));
    let prog = Program { instructions: vec![no_opcode, line(None, op(Opcode::HLT), [None, None, None])] };
    assert!(prog.can_emit(&st));
    assert!(!prog.plain());
    let prog = Program { instructions: vec![unknown] };
    assert!(!prog.can_emit(&st));
}

#[test]
fn names_of_lines() {
    let l = line(Some("lab"), op(Opcode::HLT), [None, None, None]);
    assert_eq!(l.label_name(), Some("lab".to_string()));
    assert_eq!(l.directive_name(), None);
    let (_, d) = directive("x: .asciiz 'Hi'").unwrap();
    assert_eq!(d.label_name(), Some("x".to_string()));
    assert_eq!(d.directive_name(), Some("asciiz".to_string()));
    let odd = AssemblerInstruction {
        directive: Some(Token::Reg { reg: 1 }),
        label: Some(Token::Reg { reg: 1 }),
        opcode: None,
        operand1: None,
        operand2: None,
        operand3: None,
    };
    assert_eq!(odd.label_name(), None);
    assert_eq!(odd.directive_name(), None);
}

#[test]
fn errors_say_what_was_expected() {
    assert_eq!(ParseError::Register.message(), "expected a register");
    assert_eq!(ParseError::Program.message(), "expected a program");
    assert_eq!(ParseError::IntegerOperand.message(), "expected an integer operand");
    assert_eq!(ParseError::StringOperand.message(), "expected a string operand");
    assert_eq!(ParseError::Operand.message(), "expected an operand");
    assert_eq!(ParseError::LabelDeclaration.message(), "expected a label declaration");
    assert_eq!(ParseError::LabelUsage.message(), "expected a label usage");
    assert_eq!(ParseError::Directive.message(), "expected a directive");
    assert_eq!(ParseError::Opcode.message(), "expected an opcode");
    assert_eq!(ParseError::Instruction.message(), "expected an instruction");
}
