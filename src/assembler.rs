//! The assembler: instructions to machine code.

use vstd::prelude::*;
use crate::constants::{ByteOrderConstants, Constants, Encodable};
use crate::flags::flags_byte;
use crate::instruction::Instruction;
use crate::register::{opt_register_byte, register_byte};

verus! {

/// The opcode byte of `i` under `c`.
pub open spec fn opcode_byte(i: Instruction, c: Constants) -> u8 {
    match i {
        Instruction::IMM(..) => c.opcode.IMM,
        Instruction::ADD(..) => c.opcode.ADD,
        Instruction::STK(..) => c.opcode.STK,
        Instruction::STM(..) => c.opcode.STM,
        Instruction::LDM(..) => c.opcode.LDM,
        Instruction::CMP(..) => c.opcode.CMP,
        Instruction::JMP(..) => c.opcode.JMP,
        Instruction::SYS(..) => c.opcode.SYS,
    }
}

/// The first operand byte of `i` under `c`.
pub open spec fn operand_a(i: Instruction, c: Constants) -> u8 {
    match i {
        Instruction::IMM(r, _) => register_byte(r, c),
        Instruction::ADD(r, _) => register_byte(r, c),
        Instruction::STK(r, _) => opt_register_byte(r, c),
        Instruction::STM(r, _) => register_byte(r, c),
        Instruction::LDM(r, _) => register_byte(r, c),
        Instruction::CMP(r, _) => register_byte(r, c),
        Instruction::JMP(f, _) => flags_byte(f, c),
        Instruction::SYS(s, _) => s,
    }
}

/// The second operand byte of `i` under `c`.
pub open spec fn operand_b(i: Instruction, c: Constants) -> u8 {
    match i {
        Instruction::IMM(_, v) => v,
        Instruction::ADD(_, r) => register_byte(r, c),
        Instruction::STK(_, r) => opt_register_byte(r, c),
        Instruction::STM(_, r) => register_byte(r, c),
        Instruction::LDM(_, r) => register_byte(r, c),
        Instruction::CMP(_, r) => register_byte(r, c),
        Instruction::JMP(_, r) => register_byte(r, c),
        Instruction::SYS(_, r) => opt_register_byte(r, c),
    }
}

/// The three wire bytes that hold `op`, `a` and `b` in the slots that `bo` gives them.
pub open spec fn layout(bo: ByteOrderConstants, op: u8, a: u8, b: u8) -> Seq<u8> {
    Seq::new(
        3,
        |k: int|
            if k == bo.op as int {
                op
            } else if k == bo.a as int {
                a
            } else {
                b
            },
    )
}

/// The wire form of one instruction.
pub open spec fn encode_spec(i: Instruction, c: Constants) -> Seq<u8> {
    layout(c.byte_order, opcode_byte(i, c), operand_a(i, c), operand_b(i, c))
}

/// The wire form of a program: the wire forms of its instructions, in order.
pub open spec fn assemble_spec(v: Seq<Instruction>, c: Constants) -> Seq<u8>
    decreases v.len(),
{
    if v.len() == 0 {
        seq![]
    } else {
        assemble_spec(v.drop_last(), c) + encode_spec(v.last(), c)
    }
}

/// Assembles the given instructions, converting them into bytes.
pub fn assemble(instructions: &[Instruction], constants: Constants) -> (r: Vec<u8>)
    requires
        constants.byte_order.wf(),
        3 * instructions@.len() <= usize::MAX,
    ensures
        r@ == assemble_spec(instructions@, constants),
        r@.len() == 3 * instructions@.len(),
{
    let mut out: Vec<u8> = Vec::new();
    let mut i: usize = 0;
    while i < instructions.len()
        invariant
            i <= instructions@.len(),
            constants.byte_order.wf(),
            out@ == assemble_spec(instructions@.take(i as int), constants),
            out@.len() == 3 * i,
        decreases instructions@.len() - i,
    {
        let data = assemble_instruction(&instructions[i], constants);
        assert(instructions@.take(i as int + 1).drop_last() =~= instructions@.take(i as int));
        out.push(data[0]);
        out.push(data[1]);
        out.push(data[2]);
        assert(out@ =~= assemble_spec(instructions@.take(i as int), constants) + data@);
        i = i + 1;
    }
    assert(instructions@.take(i as int) =~= instructions@);
    out
}

/// Assembles the given instruction, converting it into its three-byte data
/// representation.
pub fn assemble_instruction(instruction: &Instruction, c: Constants) -> (r: [u8; 3])
    requires
        c.byte_order.wf(),
    ensures
        r@ == encode_spec(*instruction, c),
{
    let o = c.opcode;
    let bo = c.byte_order;

    let (op, a, b) = match instruction {
        Instruction::IMM(register, value) => (o.IMM, register.encode(c), *value),
        Instruction::ADD(dest, operand) => (o.ADD, dest.encode(c), operand.encode(c)),
        Instruction::STK(pop, push) => (o.STK, pop.encode(c), push.encode(c)),
        Instruction::STM(dest, src) => (o.STM, dest.encode(c), src.encode(c)),
        Instruction::LDM(dest, src) => (o.LDM, dest.encode(c), src.encode(c)),
        Instruction::CMP(a, b) => (o.CMP, a.encode(c), b.encode(c)),
        Instruction::JMP(condition, register) => (o.JMP, condition.encode(c), register.encode(c)),
        Instruction::SYS(syscall, register) => (o.SYS, *syscall, register.encode(c)),
    };

    let mut data: [u8; 3] = [0, 0, 0];
    data[bo.op as usize] = op;
    data[bo.a as usize] = a;
    data[bo.b as usize] = b;
    assert(data@ =~= encode_spec(*instruction, c));
    data
}

} // verus!
