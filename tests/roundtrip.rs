use gyan85::assembler::assemble;
use gyan85::constants::Constants;
use gyan85::disassembler::disassemble;
use gyan85::instruction::Instruction;
use gyan85::register::Register;

#[test]
fn roundtrip_test_imm() {
    let consts = Constants::default();
    let instructions = vec![Instruction::IMM(Register::A, 5)];
    let bytes = assemble(&instructions, consts);

    assert_eq!(disassemble(bytes, consts).unwrap(), instructions);
}

#[test]
fn roundtrip_test_add() {
    let consts = Constants::default();
    let instructions = vec![Instruction::ADD(Register::A, Register::B)];
    let bytes = assemble(&instructions, consts);

    assert_eq!(disassemble(bytes, consts).unwrap(), instructions);
}

#[test]
fn roundtrip_test_stk_push() {
    let consts = Constants::default();
    let instructions = vec![Instruction::STK(None, Some(Register::A))];
    let bytes = assemble(&instructions, consts);

    assert_eq!(disassemble(bytes, consts).unwrap(), instructions);
}

#[test]
fn roundtrip_test_stk_pop() {
    let consts = Constants::default();
    let instructions = vec![Instruction::STK(Some(Register::A), None)];
    let bytes = assemble(&instructions, consts);

    assert_eq!(disassemble(bytes, consts).unwrap(), instructions);
}

#[test]
fn roundtrip_test_stk_push_pop() {
    let consts = Constants::default();
    let instructions = vec![Instruction::STK(Some(Register::A), Some(Register::B))];
    let bytes = assemble(&instructions, consts);

    assert_eq!(disassemble(bytes, consts).unwrap(), instructions);
}

#[test]
fn roundtrip_test_ldm() {
    let consts = Constants::default();
    let instructions = vec![Instruction::LDM(Register::A, Register::B)];
    let bytes = assemble(&instructions, consts);

    assert_eq!(disassemble(bytes, consts).unwrap(), instructions);
}

#[test]
fn roundtrip_test_cmp() {
    let consts = Constants::default();
    let instructions = vec![Instruction::CMP(Register::A, Register::B)];
    let bytes = assemble(&instructions, consts);

    assert_eq!(disassemble(bytes, consts).unwrap(), instructions);
}

#[test]
fn roundtrip_test_jmp() {
    let consts = Constants::default();
    let instructions = vec![Instruction::JMP("L".try_into().unwrap(), Register::A)];
    let bytes = assemble(&instructions, consts);

    assert_eq!(disassemble(bytes, consts).unwrap(), instructions);
}

#[test]
fn roundtrip_test_sys() {
    let consts = Constants::default();
    let instructions = vec![Instruction::SYS(0x1, Some(Register::D))];
    let bytes = assemble(&instructions, consts);

    assert_eq!(disassemble(bytes, consts).unwrap(), instructions);
}
