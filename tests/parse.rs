use gyan85::flags::Flags;
use gyan85::instruction::Instruction;
use gyan85::parse::{parse_asm_file, parse_asm_instruction, parse_int_literal, ParseError};
use gyan85::register::Register;

#[test]
fn test_parse_instructions() {
    let instructions = parse_asm_file(
        r#"
                IMM i = 0x69
                IMM b = 0xac
                IMM c = 0xa
            "#
        .to_string(),
    )
    .unwrap();

    assert_eq!(
        instructions,
        vec![
            Instruction::IMM(Register::I, 0x69),
            Instruction::IMM(Register::B, 0xac),
            Instruction::IMM(Register::C, 0xa),
        ]
    )
}

#[test]
fn parse_test_imm() {
    let (_, instruction) = parse_asm_instruction("IMM i = 42").unwrap();
    assert_eq!(instruction, Instruction::IMM(Register::I, 42));
}

#[test]
fn test_imm_hex_literal() {
    let (_, instruction) = parse_asm_instruction("IMM i = 0x42").unwrap();
    assert_eq!(instruction, Instruction::IMM(Register::I, 0x42));
}

#[test]
fn test_imm_out_of_bounds_literal() {
    assert!(parse_asm_instruction("IMM i = 0xf00").is_err());
}

#[test]
fn test_imm_none_operand() {
    assert!(parse_asm_instruction("IMM NONE = 0").is_err());
}

#[test]
fn parse_test_add() {
    let (_, instruction) = parse_asm_instruction("ADD a b").unwrap();
    assert_eq!(instruction, Instruction::ADD(Register::A, Register::B));
}

#[test]
fn test_add_extra_operand() {
    assert!(parse_asm_instruction("ADD a b c").is_err());
}

#[test]
fn test_add_none_operand() {
    assert!(parse_asm_instruction("ADD a NONE").is_err());
}

#[test]
fn parse_test_stk_push_pop() {
    let (_, instruction) = parse_asm_instruction("STK a b").unwrap();
    assert_eq!(instruction, Instruction::STK(Some(Register::A), Some(Register::B)));
}

#[test]
fn parse_test_stk_pop() {
    let (_, instruction) = parse_asm_instruction("STK a NONE").unwrap();
    assert_eq!(instruction, Instruction::STK(Some(Register::A), None));
}

#[test]
fn parse_test_stk_push() {
    let (_, instruction) = parse_asm_instruction("STK NONE b").unwrap();
    assert_eq!(instruction, Instruction::STK(None, Some(Register::B)));
}

#[test]
fn test_stk_noop() {
    let (_, instruction) = parse_asm_instruction("STK NONE NONE").unwrap();
    assert_eq!(instruction, Instruction::STK(None, None));
}

#[test]
fn parse_test_stm() {
    let (_, instruction) = parse_asm_instruction("STM *a = b").unwrap();
    assert_eq!(instruction, Instruction::STM(Register::A, Register::B));
}

#[test]
fn test_stm_no_deref() {
    assert!(parse_asm_instruction("STM a = b").is_err());
}

#[test]
fn test_stm_misplaced_deref() {
    assert!(parse_asm_instruction("STM a = *b").is_err());
}

#[test]
fn parse_test_ldm() {
    let (_, instruction) = parse_asm_instruction("LDM b = *a").unwrap();
    assert_eq!(instruction, Instruction::LDM(Register::B, Register::A));
}

#[test]
fn test_ldm_no_deref() {
    assert!(parse_asm_instruction("LDM b = a").is_err());
}

#[test]
fn test_ldm_misplaced_deref() {
    assert!(parse_asm_instruction("LDM *b = a").is_err());
}

#[test]
fn parse_test_cmp() {
    let (_, instruction) = parse_asm_instruction("CMP a b").unwrap();
    assert_eq!(instruction, Instruction::CMP(Register::A, Register::B));
}

#[test]
fn parse_test_jmp() {
    let (_, instruction) = parse_asm_instruction("JMP LZ d").unwrap();
    assert_eq!(
        instruction,
        Instruction::JMP(
            Flags {
                less_than: true,
                greater_than: false,
                equal: false,
                not_equal: false,
                zeroes: true
            },
            Register::D
        )
    );
}

#[test]
fn test_jmp_misordered_operands() {
    assert!(parse_asm_instruction("JMP d 8").is_err());
}

#[test]
fn parse_test_sys() {
    let (_, instruction) = parse_asm_instruction("SYS 0x20 d").unwrap();
    assert_eq!(instruction, Instruction::SYS(0x20, Some(Register::D)));
}

#[test]
fn test_sys_none_operand() {
    assert!(parse_asm_instruction("SYS 0x8 NONE").is_err());
}

#[test]
fn test_sys_misordered_operands() {
    assert!(parse_asm_instruction("SYS d 0x20").is_err());
}

#[test]
fn test_int_literal_decimal() {
    let (_, literal) = parse_int_literal("5").unwrap();
    assert_eq!(literal, 5);
}

#[test]
fn test_int_literal_hex() {
    let (_, literal) = parse_int_literal("0x20").unwrap();
    assert_eq!(literal, 0x20);
}

#[test]
fn test_int_literal_out_of_bounds() {
    assert!(parse_int_literal("256").is_err());
}

#[test]
fn int_literal_edges() {
    assert_eq!(parse_int_literal("255"), Ok((3, 255)));
    assert_eq!(parse_int_literal("0xFf rest"), Ok((4, 255)));
    assert_eq!(parse_int_literal("0x0000ff"), Ok((8, 255)));
    assert!(parse_int_literal("0x100").is_err());
    assert!(parse_int_literal("0x").is_err());
    assert!(parse_int_literal("").is_err());
}

#[test]
fn parse_reports_offending_line() {
    let result = parse_asm_file("IMM a = 1\n\nADD a q\nCMP a b\n".to_string());
    assert_eq!(result, Err(ParseError { line: 3 }));
}

#[test]
fn parse_skips_blank_lines_and_accepts_crlf() {
    let result = parse_asm_file("\r\n  CMP a b\t\r\n\nJMP LGL i".to_string());
    assert_eq!(
        result,
        Ok(vec![
            Instruction::CMP(Register::A, Register::B),
            Instruction::JMP("LG".try_into().unwrap(), Register::I),
        ])
    );
}

#[test]
fn parse_rejects_two_instructions_on_a_line() {
    assert_eq!(
        parse_asm_file("IMM a = 1 IMM b = 2".to_string()),
        Err(ParseError { line: 1 })
    );
}

#[test]
fn parse_instruction_consumes_its_line() {
    assert_eq!(
        parse_asm_instruction("ADD a b\nCMP a b"),
        Ok((8, Instruction::ADD(Register::A, Register::B)))
    );
}

#[test]
fn flags_from_letters() {
    let f: Flags = "ZN".try_into().unwrap();
    assert_eq!(
        f,
        Flags { less_than: false, greater_than: false, equal: false, not_equal: true, zeroes: true }
    );
    let bad: Result<Flags, ParseError> = "LX".try_into();
    assert!(bad.is_err());
}
