use gyan85::constants::{Constants, DecodeError};
use gyan85::disassembler::{disassemble, disassemble_instruction, DisassembleError};
use gyan85::instruction::Instruction;
use gyan85::register::Register as Reg;

#[test]
fn test_disassemble_imm() {
    let consts = Constants::default();
    assert_eq!(
        disassemble_instruction([consts.opcode.IMM, consts.register.C, 0x69], consts).unwrap(),
        Instruction::IMM(Reg::C, 0x69)
    );
}

#[test]
fn test_disassemble_add() {
    let consts = Constants::default();
    assert_eq!(
        disassemble_instruction([consts.opcode.ADD, consts.register.B, consts.register.S], consts)
            .unwrap(),
        Instruction::ADD(Reg::B, Reg::S),
    );
}

#[test]
fn test_disassemble_stk() {
    let consts = Constants::default();
    assert_eq!(
        disassemble_instruction([consts.opcode.STK, consts.register.C, consts.register.I], consts)
            .unwrap(),
        Instruction::STK(Some(Reg::C), Some(Reg::I))
    )
}

#[test]
fn test_disassemble_stk_none_operand() {
    let consts = Constants::default();
    assert_eq!(
        disassemble_instruction([consts.opcode.STK, consts.register.C, 0], consts).unwrap(),
        Instruction::STK(Some(Reg::C), None)
    )
}

#[test]
fn test_disassemble_stk_none_operands() {
    let consts = Constants::default();
    assert_eq!(
        disassemble_instruction([consts.opcode.STK, 0, 0], consts).unwrap(),
        Instruction::STK(None, None)
    )
}

#[test]
fn test_disassemble_stm() {
    let consts = Constants::default();
    assert_eq!(
        disassemble_instruction([consts.opcode.STM, consts.register.C, consts.register.D], consts)
            .unwrap(),
        Instruction::STM(Reg::C, Reg::D),
    );
}

#[test]
fn test_disassemble_ldm() {
    let consts = Constants::default();
    assert_eq!(
        disassemble_instruction([consts.opcode.LDM, consts.register.B, consts.register.B], consts)
            .unwrap(),
        Instruction::LDM(Reg::B, Reg::B),
    );
}

#[test]
fn test_disassemble_cmp() {
    let consts = Constants::default();
    assert_eq!(
        disassemble_instruction([consts.opcode.CMP, consts.register.C, consts.register.D], consts)
            .unwrap(),
        Instruction::CMP(Reg::C, Reg::D),
    );
}

#[test]
fn test_disassemble_jmp() {
    let consts = Constants::default();
    assert_eq!(
        disassemble_instruction(
            [consts.opcode.JMP, consts.flag.L | consts.flag.G, consts.register.D],
            consts
        )
        .unwrap(),
        Instruction::JMP("LG".try_into().unwrap(), Reg::D),
    );
}

#[test]
fn test_disassemble_sys() {
    let consts = Constants::default();
    assert_eq!(
        disassemble_instruction([consts.opcode.SYS, consts.syscall.WRITE, consts.register.D], consts)
            .unwrap(),
        Instruction::SYS(consts.syscall.WRITE, Some(Reg::D)),
    );
}

#[test]
fn test_disassemble_sys_none_operand() {
    let consts = Constants::default();
    assert_eq!(
        disassemble_instruction([consts.opcode.SYS, consts.syscall.EXIT, 0], consts).unwrap(),
        Instruction::SYS(consts.syscall.EXIT, None),
    );
}

#[test]
fn disassemble_rejects_unknown_opcode() {
    let consts = Constants::default();
    assert_eq!(
        disassemble(vec![0x3, consts.register.A, 0], consts),
        Err(DisassembleError::InvalidChunk(0, DecodeError::InvalidOpcode(0x3)))
    );
}

#[test]
fn disassemble_reports_first_failing_chunk() {
    let consts = Constants::default();
    let bytes = vec![
        consts.opcode.IMM, consts.register.A, 1,
        consts.opcode.ADD, consts.register.A, 0x3,
        0x3, 0, 0,
    ];
    assert_eq!(
        disassemble(bytes, consts),
        Err(DisassembleError::InvalidChunk(1, DecodeError::InvalidOperand(0x3)))
    );
}

#[test]
fn disassemble_rejects_partial_instruction() {
    let consts = Constants::default();
    assert_eq!(
        disassemble(vec![consts.opcode.IMM, consts.register.A, 1, 0], consts),
        Err(DisassembleError::InvalidLength(4))
    );
}

#[test]
fn disassemble_empty_stream() {
    assert_eq!(disassemble(vec![], Constants::default()), Ok(vec![]));
}

#[test]
fn disassemble_rejects_zero_register_where_one_is_required() {
    let consts = Constants::default();
    assert_eq!(
        disassemble_instruction([consts.opcode.ADD, consts.register.A, 0], consts),
        Err(DecodeError::InvalidOperand(0))
    );
}

#[test]
fn disassemble_rejects_unknown_flag_bits() {
    let consts = Constants::default();
    assert_eq!(
        disassemble_instruction([consts.opcode.JMP, consts.flag.L | 0x80, consts.register.D], consts),
        Err(DecodeError::InvalidOperand(consts.flag.L | 0x80))
    );
}

#[test]
fn disassemble_reads_slots_by_byte_order() {
    let mut consts = Constants::default();
    consts.byte_order.op = 2;
    consts.byte_order.a = 0;
    consts.byte_order.b = 1;
    assert_eq!(
        disassemble(vec![consts.register.C, 7, consts.opcode.IMM], consts),
        Ok(vec![Instruction::IMM(Reg::C, 7)])
    );
}
