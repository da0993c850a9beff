//! Yan85 assembler, disassembler and emulator.

/// The level-specific encoding table.
pub mod constants;
/// Yan85 registers.
pub mod register;
/// Comparison flags.
pub mod flags;
/// Yan85 system calls.
pub mod syscall;
/// The Yan85 instruction algebra.
pub mod instruction;
/// The assembler: instructions to machine code.
pub mod assembler;
/// The disassembler: machine code to instructions.
pub mod disassembler;
/// The Yan85 register file, stack, memory and code storage.
pub mod memory;
/// The Yan85 emulator.
pub mod emulator;
/// Parses Yan85 assembly text into instructions.
pub mod parse;
