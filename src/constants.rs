//! The level-specific encoding table: which byte stands for which opcode,
//! register, flag and syscall, and where each role sits in an instruction.

use vstd::prelude::*;

verus! {

/// Why a byte could not be decoded.
#[derive(Clone, Copy, Debug, PartialEq, Eq, Structural)]
pub enum DecodeError {
    /// The opcode slot holds a byte that is no opcode of the table.
    InvalidOpcode(u8),
    /// An operand slot holds a byte that is no register, flag set or syscall of the table.
    InvalidOperand(u8),
}

/// Instruction encoding specification that varies from level to level.
#[derive(Clone, Copy, Debug, PartialEq, Eq, Structural)]
pub struct Constants {
    /// The byte order of the instruction 3-tuple.
    pub byte_order: ByteOrderConstants,
    /// The opcode constants.
    pub opcode: OpcodeConstants,
    /// The register constants.
    pub register: RegisterConstants,
    /// The syscall numbers.
    pub syscall: SyscallConstants,
    /// The flag constants.
    pub flag: FlagConstants,
}

/// Encodable to a byte with the constants table as context.
pub trait Encodable {
    /// The byte that `self` stands for under `c`.
    spec fn encoding(&self, c: Constants) -> u8;

    /// Encodes `self` to a byte.
    fn encode(&self, c: Constants) -> (r: u8)
        ensures
            r == self.encoding(c),
    ;
}

/// Decodable from a byte with the constants table as context.
pub trait Decodable: Sized {
    /// Whether `r` is the outcome of decoding `value` under `c`.
    spec fn decodes_to(value: u8, c: Constants, r: Result<Self, DecodeError>) -> bool;

    /// Decodes a value from a byte.
    fn decode(value: u8, c: Constants) -> (r: Result<Self, DecodeError>)
        ensures
            Self::decodes_to(value, c, r),
    ;
}

/// Specification of the encoding order of the instruction 3-tuple.
///
/// The values of this structure's fields must be a permutation of {0, 1, 2}.
#[derive(Clone, Copy, Debug, PartialEq, Eq, Structural)]
pub struct ByteOrderConstants {
    /// Index of the byte corresponding to the opcode.
    pub op: u8,
    /// Index of the byte corresponding to the first operand.
    pub a: u8,
    /// Index of the byte corresponding to the second operand.
    pub b: u8,
}

/// The constants associated with each opcode.
#[allow(non_snake_case)]
#[derive(Clone, Copy, Debug, PartialEq, Eq, Structural)]
pub struct OpcodeConstants {
    /// The constant for the IMM opcode.
    pub IMM: u8,
    /// The constant for the ADD opcode.
    pub ADD: u8,
    /// The constant for the STK opcode.
    pub STK: u8,
    /// The constant for the STM opcode.
    pub STM: u8,
    /// The constant for the LDM opcode.
    pub LDM: u8,
    /// The constant for the CMP opcode.
    pub CMP: u8,
    /// The constant for the JMP opcode.
    pub JMP: u8,
    /// The constant for the SYS opcode.
    pub SYS: u8,
}

/// The constants associated with each register.
#[allow(non_snake_case)]
#[derive(Clone, Copy, Debug, PartialEq, Eq, Structural)]
pub struct RegisterConstants {
    /// The constant for the "a" register.
    pub A: u8,
    /// The constant for the "b" register.
    pub B: u8,
    /// The constant for the "c" register.
    pub C: u8,
    /// The constant for the "d" register.
    pub D: u8,
    /// The constant for the "s" (stack pointer) register.
    pub S: u8,
    /// The constant for the "i" (instruction pointer) register.
    pub I: u8,
    /// The constant for the "f" (flag) register.
    pub F: u8,
}

/// The syscall numbers associated with each syscall.
#[allow(non_snake_case)]
#[derive(Clone, Copy, Debug, PartialEq, Eq, Structural)]
pub struct SyscallConstants {
    /// The syscall number for the `OPEN` syscall.
    pub OPEN: u8,
    /// The syscall number for the `READ_CODE` syscall.
    pub READ_CODE: u8,
    /// The syscall number for the `READ_MEMORY` syscall.
    pub READ_MEMORY: u8,
    /// The syscall number for the `WRITE` syscall.
    pub WRITE: u8,
    /// The syscall number for the `SLEEP` syscall.
    pub SLEEP: u8,
    /// The syscall number for the `EXIT` syscall.
    pub EXIT: u8,
}

/// The constants associated with each flag.
#[allow(non_snake_case)]
#[derive(Clone, Copy, Debug, PartialEq, Eq, Structural)]
pub struct FlagConstants {
    /// The constant for the "less than" flag.
    pub L: u8,
    /// The constant for the "greater than" flag.
    pub G: u8,
    /// The constant for the "equal to" flag.
    pub E: u8,
    /// The constant for the "not equal to" flag.
    pub N: u8,
    /// The constant for the "zeroes" flag.
    pub Z: u8,
}

impl ByteOrderConstants {
    /// The three slots are a permutation of {0, 1, 2}.
    pub open spec fn wf(self) -> bool {
        &&& self.op < 3
        &&& self.a < 3
        &&& self.b < 3
        &&& self.op != self.a
        &&& self.op != self.b
        &&& self.a != self.b
    }

    /// Checks that the slots are a permutation of {0, 1, 2}.
    pub fn is_valid(&self) -> (r: bool)
        ensures
            r == self.wf(),
    {
        self.op < 3 && self.a < 3 && self.b < 3 && self.op != self.a && self.op != self.b
            && self.a != self.b
    }
}

impl OpcodeConstants {
    /// The eight opcodes are pairwise distinct.
    pub open spec fn wf(self) -> bool {
        &&& self.IMM != self.ADD && self.IMM != self.STK && self.IMM != self.STM
        &&& self.IMM != self.LDM && self.IMM != self.CMP && self.IMM != self.JMP
        &&& self.IMM != self.SYS
        &&& self.ADD != self.STK && self.ADD != self.STM && self.ADD != self.LDM
        &&& self.ADD != self.CMP && self.ADD != self.JMP && self.ADD != self.SYS
        &&& self.STK != self.STM && self.STK != self.LDM && self.STK != self.CMP
        &&& self.STK != self.JMP && self.STK != self.SYS
        &&& self.STM != self.LDM && self.STM != self.CMP && self.STM != self.JMP
        &&& self.STM != self.SYS
        &&& self.LDM != self.CMP && self.LDM != self.JMP && self.LDM != self.SYS
        &&& self.CMP != self.JMP && self.CMP != self.SYS
        &&& self.JMP != self.SYS
    }

    /// Checks that the eight opcodes are pairwise distinct.
    pub fn is_valid(&self) -> (r: bool)
        ensures
            r == self.wf(),
    {
        self.IMM != self.ADD && self.IMM != self.STK && self.IMM != self.STM && self.IMM
            != self.LDM && self.IMM != self.CMP && self.IMM != self.JMP && self.IMM != self.SYS
            && self.ADD != self.STK && self.ADD != self.STM && self.ADD != self.LDM && self.ADD
            != self.CMP && self.ADD != self.JMP && self.ADD != self.SYS && self.STK != self.STM
            && self.STK != self.LDM && self.STK != self.CMP && self.STK != self.JMP && self.STK
            != self.SYS && self.STM != self.LDM && self.STM != self.CMP && self.STM != self.JMP
            && self.STM != self.SYS && self.LDM != self.CMP && self.LDM != self.JMP && self.LDM
            != self.SYS && self.CMP != self.JMP && self.CMP != self.SYS && self.JMP != self.SYS
    }
}

impl RegisterConstants {
    /// The seven registers are pairwise distinct and none of them is the
    /// byte 0x00, which stands for "no register".
    pub open spec fn wf(self) -> bool {
        &&& self.A != 0 && self.B != 0 && self.C != 0 && self.D != 0
        &&& self.S != 0 && self.I != 0 && self.F != 0
        &&& self.A != self.B && self.A != self.C && self.A != self.D
        &&& self.A != self.S && self.A != self.I && self.A != self.F
        &&& self.B != self.C && self.B != self.D && self.B != self.S
        &&& self.B != self.I && self.B != self.F
        &&& self.C != self.D && self.C != self.S && self.C != self.I && self.C != self.F
        &&& self.D != self.S && self.D != self.I && self.D != self.F
        &&& self.S != self.I && self.S != self.F
        &&& self.I != self.F
    }

    /// Checks that the registers are distinct and nonzero.
    pub fn is_valid(&self) -> (r: bool)
        ensures
            r == self.wf(),
    {
        self.A != 0 && self.B != 0 && self.C != 0 && self.D != 0 && self.S != 0 && self.I != 0
            && self.F != 0 && self.A != self.B && self.A != self.C && self.A != self.D && self.A
            != self.S && self.A != self.I && self.A != self.F && self.B != self.C && self.B
            != self.D && self.B != self.S && self.B != self.I && self.B != self.F && self.C
            != self.D && self.C != self.S && self.C != self.I && self.C != self.F && self.D
            != self.S && self.D != self.I && self.D != self.F && self.S != self.I && self.S
            != self.F && self.I != self.F
    }
}

impl SyscallConstants {
    /// The six syscall numbers are pairwise distinct.
    pub open spec fn wf(self) -> bool {
        &&& self.OPEN != self.READ_CODE && self.OPEN != self.READ_MEMORY
        &&& self.OPEN != self.WRITE && self.OPEN != self.SLEEP && self.OPEN != self.EXIT
        &&& self.READ_CODE != self.READ_MEMORY && self.READ_CODE != self.WRITE
        &&& self.READ_CODE != self.SLEEP && self.READ_CODE != self.EXIT
        &&& self.READ_MEMORY != self.WRITE && self.READ_MEMORY != self.SLEEP
        &&& self.READ_MEMORY != self.EXIT
        &&& self.WRITE != self.SLEEP && self.WRITE != self.EXIT
        &&& self.SLEEP != self.EXIT
    }

    /// Checks that the syscall numbers are distinct.
    pub fn is_valid(&self) -> (r: bool)
        ensures
            r == self.wf(),
    {
        self.OPEN != self.READ_CODE && self.OPEN != self.READ_MEMORY && self.OPEN != self.WRITE
            && self.OPEN != self.SLEEP && self.OPEN != self.EXIT && self.READ_CODE
            != self.READ_MEMORY && self.READ_CODE != self.WRITE && self.READ_CODE != self.SLEEP
            && self.READ_CODE != self.EXIT && self.READ_MEMORY != self.WRITE && self.READ_MEMORY
            != self.SLEEP && self.READ_MEMORY != self.EXIT && self.WRITE != self.SLEEP
            && self.WRITE != self.EXIT && self.SLEEP != self.EXIT
    }
}

impl FlagConstants {
    /// Each flag is a nonzero bit pattern and no two flags share a bit, so
    /// that a flag set is the bitwise or of its members.
    pub open spec fn wf(self) -> bool {
        &&& self.L != 0 && self.G != 0 && self.E != 0 && self.N != 0 && self.Z != 0
        &&& self.L & self.G == 0 && self.L & self.E == 0 && self.L & self.N == 0
        &&& self.L & self.Z == 0
        &&& self.G & self.E == 0 && self.G & self.N == 0 && self.G & self.Z == 0
        &&& self.E & self.N == 0 && self.E & self.Z == 0
        &&& self.N & self.Z == 0
    }

    /// The bits that belong to some flag.
    pub open spec fn all(self) -> u8 {
        self.L | self.G | self.E | self.N | self.Z
    }

    /// Checks that the flags are nonzero and share no bit.
    pub fn is_valid(&self) -> (r: bool)
        ensures
            r == self.wf(),
    {
        self.L != 0 && self.G != 0 && self.E != 0 && self.N != 0 && self.Z != 0 && self.L
            & self.G == 0 && self.L & self.E == 0 && self.L & self.N == 0 && self.L & self.Z == 0
            && self.G & self.E == 0 && self.G & self.N == 0 && self.G & self.Z == 0 && self.E
            & self.N == 0 && self.E & self.Z == 0 && self.N & self.Z == 0
    }
}

impl Constants {
    /// The table is unambiguous: every sub-table is valid.
    pub open spec fn wf(self) -> bool {
        &&& self.byte_order.wf()
        &&& self.opcode.wf()
        &&& self.register.wf()
        &&& self.syscall.wf()
        &&& self.flag.wf()
    }

    /// Checks the table once after it was loaded; encoding, decoding and
    /// emulation all require a table that passes.
    pub fn is_valid(&self) -> (r: bool)
        ensures
            r == self.wf(),
    {
        self.byte_order.is_valid() && self.opcode.is_valid() && self.register.is_valid()
            && self.syscall.is_valid() && self.flag.is_valid()
    }
}

impl Default for ByteOrderConstants {
    fn default() -> (r: Self)
        ensures
            r == (ByteOrderConstants { op: 0, a: 1, b: 2 }),
    {
        ByteOrderConstants { op: 0, a: 1, b: 2 }
    }
}

impl Default for OpcodeConstants {
    fn default() -> (r: Self)
        ensures
            r == (OpcodeConstants {
                IMM: 0x1,
                ADD: 0x2,
                STK: 0x4,
                STM: 0x8,
                LDM: 0x10,
                CMP: 0x20,
                JMP: 0x40,
                SYS: 0x80,
            }),
    {
        OpcodeConstants {
            IMM: 0x1,
            ADD: 0x2,
            STK: 0x4,
            STM: 0x8,
            LDM: 0x10,
            CMP: 0x20,
            JMP: 0x40,
            SYS: 0x80,
        }
    }
}

impl Default for RegisterConstants {
    fn default() -> (r: Self)
        ensures
            r == (RegisterConstants { A: 0x1, B: 0x2, C: 0x4, D: 0x8, S: 0x10, I: 0x20, F: 0x40 }),
    {
        RegisterConstants { A: 0x1, B: 0x2, C: 0x4, D: 0x8, S: 0x10, I: 0x20, F: 0x40 }
    }
}

impl Default for SyscallConstants {
    fn default() -> (r: Self)
        ensures
            r == (SyscallConstants {
                OPEN: 0x1,
                READ_CODE: 0x2,
                READ_MEMORY: 0x4,
                WRITE: 0x8,
                SLEEP: 0x10,
                EXIT: 0x20,
            }),
    {
        SyscallConstants {
            OPEN: 0x1,
            READ_CODE: 0x2,
            READ_MEMORY: 0x4,
            WRITE: 0x8,
            SLEEP: 0x10,
            EXIT: 0x20,
        }
    }
}

impl Default for FlagConstants {
    fn default() -> (r: Self)
        ensures
            r == (FlagConstants { L: 0x1, G: 0x2, E: 0x4, N: 0x8, Z: 0x10 }),
    {
        FlagConstants { L: 0x1, G: 0x2, E: 0x4, N: 0x8, Z: 0x10 }
    }
}

impl Default for Constants {
    fn default() -> (r: Self)
        ensures
            r.wf(),
            r.byte_order == (ByteOrderConstants { op: 0, a: 1, b: 2 }),
            r.opcode == (OpcodeConstants {
                IMM: 0x1,
                ADD: 0x2,
                STK: 0x4,
                STM: 0x8,
                LDM: 0x10,
                CMP: 0x20,
                JMP: 0x40,
                SYS: 0x80,
            }),
            r.register == (RegisterConstants { A: 0x1, B: 0x2, C: 0x4, D: 0x8, S: 0x10, I: 0x20, F: 0x40 }),
            r.syscall == (SyscallConstants {
                OPEN: 0x1,
                READ_CODE: 0x2,
                READ_MEMORY: 0x4,
                WRITE: 0x8,
                SLEEP: 0x10,
                EXIT: 0x20,
            }),
            r.flag == (FlagConstants { L: 0x1, G: 0x2, E: 0x4, N: 0x8, Z: 0x10 }),
    {
        let r = Constants {
            byte_order: ByteOrderConstants::default(),
            opcode: OpcodeConstants::default(),
            register: RegisterConstants::default(),
            syscall: SyscallConstants::default(),
            flag: FlagConstants::default(),
        };
        assert(0x1u8 & 0x2u8 == 0 && 0x1u8 & 0x4u8 == 0 && 0x1u8 & 0x8u8 == 0 && 0x1u8 & 0x10u8
            == 0 && 0x2u8 & 0x4u8 == 0 && 0x2u8 & 0x8u8 == 0 && 0x2u8 & 0x10u8 == 0 && 0x4u8
            & 0x8u8 == 0 && 0x4u8 & 0x10u8 == 0 && 0x8u8 & 0x10u8 == 0) by (bit_vector);
        r
    }
}

} // verus!
