use gyan85::assembler::{assemble, assemble_instruction};
use gyan85::constants::{
    ByteOrderConstants, Constants, FlagConstants, OpcodeConstants, RegisterConstants,
    SyscallConstants,
};
use gyan85::flags::Flags;
use gyan85::instruction::Instruction;
use gyan85::register::Register as Reg;

/// A table whose wire layout is operand a, operand b, opcode.
fn trailing_opcode_constants() -> Constants {
    Constants {
        byte_order: ByteOrderConstants { op: 2, a: 0, b: 1 },
        opcode: OpcodeConstants {
            IMM: 0x1,
            ADD: 0x2,
            STK: 0x80,
            STM: 0x10,
            LDM: 0x20,
            CMP: 0x8,
            JMP: 0x40,
            SYS: 0x4,
        },
        register: RegisterConstants { A: 0x20, B: 0x40, C: 0x8, D: 0x2, S: 0x10, I: 0x4, F: 0x1 },
        syscall: SyscallConstants {
            OPEN: 0x20,
            READ_CODE: 0x2,
            READ_MEMORY: 0x10,
            WRITE: 0x1,
            SLEEP: 0x4,
            EXIT: 0x8,
        },
        flag: FlagConstants { L: 0x1, G: 0x8, E: 0x4, N: 0x10, Z: 0x2 },
    }
}

#[test]
fn asm_test_assemble_imm() {
    let c = trailing_opcode_constants();
    assert_eq!(
        assemble_instruction(&Instruction::IMM(Reg::C, 0x69), c),
        [c.register.C, 0x69, c.opcode.IMM]
    )
}

#[test]
fn asm_test_assemble_add() {
    let c = trailing_opcode_constants();
    assert_eq!(
        assemble_instruction(&Instruction::ADD(Reg::B, Reg::S), c),
        [c.register.B, c.register.S, c.opcode.ADD]
    )
}

#[test]
fn asm_test_assemble_stk() {
    // Push c, then pop into i.
    let c = trailing_opcode_constants();
    assert_eq!(
        assemble_instruction(&Instruction::STK(Some(Reg::I), Some(Reg::C)), c),
        [c.register.I, c.register.C, c.opcode.STK]
    )
}

#[test]
fn asm_test_assemble_stm() {
    let c = trailing_opcode_constants();
    assert_eq!(
        assemble_instruction(&Instruction::STM(Reg::C, Reg::D), c),
        [c.register.C, c.register.D, c.opcode.STM]
    )
}

#[test]
fn asm_test_assemble_ldm() {
    let c = trailing_opcode_constants();
    assert_eq!(
        assemble_instruction(&Instruction::LDM(Reg::B, Reg::B), c),
        [c.register.B, c.register.B, c.opcode.LDM]
    );
}

#[test]
fn asm_test_assemble_cmp() {
    // The first operand takes slot a, the second slot b.
    let c = trailing_opcode_constants();
    assert_eq!(
        assemble_instruction(&Instruction::CMP(Reg::C, Reg::D), c),
        [c.register.C, c.register.D, c.opcode.CMP]
    )
}

#[test]
fn asm_test_assemble_jmp() {
    let c = trailing_opcode_constants();
    let lg = Flags { less_than: true, greater_than: true, equal: false, not_equal: false, zeroes: false };
    assert_eq!(
        assemble_instruction(&Instruction::JMP(lg, Reg::D), c),
        [c.flag.L | c.flag.G, c.register.D, c.opcode.JMP]
    );
}

#[test]
fn asm_test_assemble_sys() {
    let c = trailing_opcode_constants();
    assert_eq!(
        assemble_instruction(&Instruction::SYS(c.syscall.WRITE, Some(Reg::D)), c),
        [c.syscall.WRITE, c.register.D, c.opcode.SYS]
    )
}

#[test]
fn assemble_test_assemble_imm() {
    let consts = Constants::default();
    assert_eq!(
        assemble_instruction(&Instruction::IMM(Reg::C, 0x69), consts),
        [consts.opcode.IMM, consts.register.C, 0x69]
    )
}

#[test]
fn assemble_test_assemble_add() {
    let consts = Constants::default();
    assert_eq!(
        assemble_instruction(&Instruction::ADD(Reg::B, Reg::S), consts),
        [consts.opcode.ADD, consts.register.B, consts.register.S]
    )
}

#[test]
fn assemble_test_assemble_stk() {
    let consts = Constants::default();
    assert_eq!(
        assemble_instruction(&Instruction::STK(Some(Reg::C), Some(Reg::I)), consts),
        [consts.opcode.STK, consts.register.C, consts.register.I]
    )
}

#[test]
fn test_assemble_stk_none_operand() {
    let consts = Constants::default();
    assert_eq!(
        assemble_instruction(&Instruction::STK(Some(Reg::C), None), consts),
        [consts.opcode.STK, consts.register.C, 0]
    )
}

#[test]
fn test_assemble_stk_none_operands() {
    let consts = Constants::default();
    assert_eq!(
        assemble_instruction(&Instruction::STK(None, None), consts),
        [consts.opcode.STK, 0, 0]
    )
}

#[test]
fn assemble_test_assemble_stm() {
    let consts = Constants::default();
    assert_eq!(
        assemble_instruction(&Instruction::STM(Reg::C, Reg::D), consts),
        [consts.opcode.STM, consts.register.C, consts.register.D]
    )
}

#[test]
fn assemble_test_assemble_ldm() {
    let consts = Constants::default();
    assert_eq!(
        assemble_instruction(&Instruction::LDM(Reg::B, Reg::C), consts),
        [consts.opcode.LDM, consts.register.B, consts.register.C]
    );
}

#[test]
fn assemble_test_assemble_cmp() {
    let consts = Constants::default();
    assert_eq!(
        assemble_instruction(&Instruction::CMP(Reg::C, Reg::D), consts),
        [consts.opcode.CMP, consts.register.C, consts.register.D]
    )
}

#[test]
fn assemble_test_assemble_jmp() {
    let consts = Constants::default();
    assert_eq!(
        assemble_instruction(&Instruction::JMP("LG".try_into().unwrap(), Reg::D), consts),
        [consts.opcode.JMP, consts.flag.L | consts.flag.G, consts.register.D]
    );
}

#[test]
fn assemble_test_assemble_sys() {
    let consts = Constants::default();
    assert_eq!(
        assemble_instruction(&Instruction::SYS(consts.syscall.WRITE, Some(Reg::D)), consts),
        [consts.opcode.SYS, consts.syscall.WRITE, consts.register.D]
    )
}

#[test]
fn assemble_concatenates_in_order() {
    let consts = Constants::default();
    let bytes = assemble(
        &[Instruction::IMM(Reg::A, 5), Instruction::ADD(Reg::A, Reg::B)],
        consts,
    );
    assert_eq!(bytes, vec![0x1, 0x1, 0x5, 0x2, 0x1, 0x2]);
}

#[test]
fn assemble_empty_program() {
    assert_eq!(assemble(&[], Constants::default()), Vec::<u8>::new());
}

#[test]
fn assemble_follows_byte_order() {
    let mut consts = Constants::default();
    consts.byte_order = ByteOrderConstants { op: 1, a: 2, b: 0 };
    assert_eq!(
        assemble_instruction(&Instruction::IMM(Reg::A, 5), consts),
        [5, consts.opcode.IMM, consts.register.A]
    );
}
