//! The Yan85 instruction algebra.

use vstd::prelude::*;
use crate::flags::Flags;
use crate::register::Register;

verus! {

/// Yan85 syscall number.
pub type SysCall = u8;

/// Yan85 instruction.
#[allow(non_camel_case_types)]
#[derive(Clone, Copy, Debug, PartialEq, Eq, Structural)]
pub enum Instruction {
    /// Immediate instruction that assigns an integer to a register.
    IMM(Register, u8),
    /// Adds two registers.
    ///
    /// `ADD a b` increments the value in register `a` by the value in register `b`.
    ADD(Register, Register),
    /// Stack instruction that pops values from the stack into a register and
    /// pushes values from registers onto the stack: `STK pop push`.
    STK(Option<Register>, Option<Register>),
    /// Assigns a value to a memory location.
    ///
    /// `STM *a = b` assigns the value in `b` to the memory location referenced by `a`.
    STM(Register, Register),
    /// "Load from memory" instruction.
    ///
    /// `LDM a = *b` assigns the value in the memory location referenced by `b` to register `a`.
    LDM(Register, Register),
    /// Comparison instruction.
    CMP(Register, Register),
    /// Jumps to the instruction referenced by a register if the specified
    /// condition is met by the value in the "flag" register.
    JMP(Flags, Register),
    /// Syscall instruction, with the register that receives the result.
    SYS(SysCall, Option<Register>),
}

} // verus!
