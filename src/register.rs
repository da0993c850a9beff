//! The seven Yan85 registers and their byte encoding.

use vstd::prelude::*;
use crate::constants::{Constants, Decodable, DecodeError, Encodable};

verus! {

/// Yan85 registers.
#[derive(Clone, Copy, Debug, PartialEq, Eq, Structural)]
pub enum Register {
    /// General-purpose register "a".
    A,
    /// General-purpose register "b".
    B,
    /// General-purpose register "c".
    C,
    /// General-purpose register "d".
    D,
    /// Stack pointer.
    S,
    /// Instruction pointer.
    I,
    /// Flag register. Typically modified via CMP instructions and implicitly
    /// used in JMP instructions.
    F,
}

/// The byte that stands for register `r` under `c`.
pub open spec fn register_byte(r: Register, c: Constants) -> u8 {
    match r {
        Register::A => c.register.A,
        Register::B => c.register.B,
        Register::C => c.register.C,
        Register::D => c.register.D,
        Register::S => c.register.S,
        Register::I => c.register.I,
        Register::F => c.register.F,
    }
}

/// The byte of an optional register: 0x00 stands for "no register".
pub open spec fn opt_register_byte(r: Option<Register>, c: Constants) -> u8 {
    match r {
        Some(r) => register_byte(r, c),
        None => 0,
    }
}

/// The register that byte `v` stands for under `c`, tried in the order
/// a, b, c, d, s, i, f.
pub open spec fn register_of_byte(v: u8, c: Constants) -> Result<Register, DecodeError> {
    if v == c.register.A {
        Ok(Register::A)
    } else if v == c.register.B {
        Ok(Register::B)
    } else if v == c.register.C {
        Ok(Register::C)
    } else if v == c.register.D {
        Ok(Register::D)
    } else if v == c.register.S {
        Ok(Register::S)
    } else if v == c.register.I {
        Ok(Register::I)
    } else if v == c.register.F {
        Ok(Register::F)
    } else {
        Err(DecodeError::InvalidOperand(v))
    }
}

/// The optional register that byte `v` stands for: a register byte gives that
/// register, else 0x00 gives none, else the byte is invalid.
pub open spec fn opt_register_of_byte(v: u8, c: Constants) -> Result<Option<Register>, DecodeError> {
    match register_of_byte(v, c) {
        Ok(r) => Ok(Some(r)),
        Err(e) => if v == 0 {
            Ok(None)
        } else {
            Err(e)
        },
    }
}

impl Register {
    /// The position of the register in the register file.
    pub open spec fn slot(self) -> int {
        match self {
            Register::A => 0,
            Register::B => 1,
            Register::C => 2,
            Register::D => 3,
            Register::S => 4,
            Register::I => 5,
            Register::F => 6,
        }
    }

    /// Returns the position of the register in the register file.
    pub fn index(self) -> (r: usize)
        ensures
            r as int == self.slot(),
            r < 7,
    {
        match self {
            Register::A => 0,
            Register::B => 1,
            Register::C => 2,
            Register::D => 3,
            Register::S => 4,
            Register::I => 5,
            Register::F => 6,
        }
    }

    /// Decodes a register byte.
    pub fn try_from(value: u8, c: Constants) -> (r: Result<Register, DecodeError>)
        ensures
            r == register_of_byte(value, c),
    {
        Register::decode(value, c)
    }

    /// Encodes the register to its byte.
    pub fn to_u8(self, c: Constants) -> (r: u8)
        ensures
            r == register_byte(self, c),
    {
        self.encode(c)
    }
}

impl Encodable for Register {
    open spec fn encoding(&self, c: Constants) -> u8 {
        register_byte(*self, c)
    }

    fn encode(&self, c: Constants) -> (r: u8) {
        match self {
            Register::A => c.register.A,
            Register::B => c.register.B,
            Register::C => c.register.C,
            Register::D => c.register.D,
            Register::S => c.register.S,
            Register::I => c.register.I,
            Register::F => c.register.F,
        }
    }
}

impl Decodable for Register {
    open spec fn decodes_to(value: u8, c: Constants, r: Result<Register, DecodeError>) -> bool {
        r == register_of_byte(value, c)
    }

    fn decode(value: u8, c: Constants) -> (r: Result<Register, DecodeError>) {
        if value == c.register.A {
            Ok(Register::A)
        } else if value == c.register.B {
            Ok(Register::B)
        } else if value == c.register.C {
            Ok(Register::C)
        } else if value == c.register.D {
            Ok(Register::D)
        } else if value == c.register.S {
            Ok(Register::S)
        } else if value == c.register.I {
            Ok(Register::I)
        } else if value == c.register.F {
            Ok(Register::F)
        } else {
            Err(DecodeError::InvalidOperand(value))
        }
    }
}

impl Encodable for Option<Register> {
    open spec fn encoding(&self, c: Constants) -> u8 {
        opt_register_byte(*self, c)
    }

    fn encode(&self, c: Constants) -> (r: u8) {
        match self {
            Some(r) => r.encode(c),
            None => 0x0,
        }
    }
}

impl Decodable for Option<Register> {
    open spec fn decodes_to(
        value: u8,
        c: Constants,
        r: Result<Option<Register>, DecodeError>,
    ) -> bool {
        r == opt_register_of_byte(value, c)
    }

    fn decode(value: u8, c: Constants) -> (r: Result<Option<Register>, DecodeError>) {
        match Register::decode(value, c) {
            Ok(r) => Ok(Some(r)),
            Err(e) => if value == 0x0 {
                Ok(None)
            } else {
                Err(e)
            },
        }
    }
}

/// Under a valid register table, decoding the byte of a register gives it back.
pub proof fn lemma_register_round_trip(r: Register, c: Constants)
    requires
        c.register.wf(),
    ensures
        register_of_byte(register_byte(r, c), c) == Ok::<Register, DecodeError>(r),
        opt_register_of_byte(register_byte(r, c), c) == Ok::<Option<Register>, DecodeError>(
            Some(r),
        ),
{
}

/// Under a valid register table, decoding the byte of an optional register
/// gives it back.
pub proof fn lemma_opt_register_round_trip(r: Option<Register>, c: Constants)
    requires
        c.register.wf(),
    ensures
        opt_register_of_byte(opt_register_byte(r, c), c) == Ok::<Option<Register>, DecodeError>(r),
{
}

} // verus!
