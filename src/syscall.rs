//! Yan85 system calls.

use vstd::prelude::*;
use crate::constants::{Constants, Decodable, DecodeError, Encodable};

verus! {

/// A Yan85 system call.
#[derive(Clone, Copy, Debug, PartialEq, Eq, Structural)]
pub enum Syscall {
    /// Opens a file.
    Open,
    /// Reads bytes from an open file into Yan85 instructions.
    ReadCode,
    /// Reads bytes from an open file into memory.
    ReadMemory,
    /// Writes bytes from memory to an open file.
    Write,
    /// Pauses execution and sleeps for a finite number of seconds.
    Sleep,
    /// Terminates the program.
    Exit,
}

/// The number of syscall `s` under `c`.
pub open spec fn syscall_byte(s: Syscall, c: Constants) -> u8 {
    match s {
        Syscall::Open => c.syscall.OPEN,
        Syscall::ReadCode => c.syscall.READ_CODE,
        Syscall::ReadMemory => c.syscall.READ_MEMORY,
        Syscall::Write => c.syscall.WRITE,
        Syscall::Sleep => c.syscall.SLEEP,
        Syscall::Exit => c.syscall.EXIT,
    }
}

/// The syscall whose number is `v`, tried in declaration order.
pub open spec fn syscall_of_byte(v: u8, c: Constants) -> Result<Syscall, DecodeError> {
    if v == c.syscall.OPEN {
        Ok(Syscall::Open)
    } else if v == c.syscall.READ_CODE {
        Ok(Syscall::ReadCode)
    } else if v == c.syscall.READ_MEMORY {
        Ok(Syscall::ReadMemory)
    } else if v == c.syscall.WRITE {
        Ok(Syscall::Write)
    } else if v == c.syscall.SLEEP {
        Ok(Syscall::Sleep)
    } else if v == c.syscall.EXIT {
        Ok(Syscall::Exit)
    } else {
        Err(DecodeError::InvalidOperand(v))
    }
}

/// The bitwise or of the numbers of the syscalls in `s`.
pub open spec fn syscalls_byte(s: Seq<Syscall>, c: Constants) -> u8
    decreases s.len(),
{
    if s.len() == 0 {
        0
    } else {
        syscalls_byte(s.drop_last(), c) | syscall_byte(s.last(), c)
    }
}

/// `seq![s]` when the number of `s` shares a bit with `v`, else nothing.
pub open spec fn syscall_if_in(v: u8, s: Syscall, c: Constants) -> Seq<Syscall> {
    if v & syscall_byte(s, c) != 0 {
        seq![s]
    } else {
        seq![]
    }
}

/// The syscalls whose numbers share a bit with `v`, in declaration order.
pub open spec fn syscalls_in_byte(v: u8, c: Constants) -> Seq<Syscall> {
    syscall_if_in(v, Syscall::Open, c) + syscall_if_in(v, Syscall::ReadCode, c) + syscall_if_in(
        v,
        Syscall::ReadMemory,
        c,
    ) + syscall_if_in(v, Syscall::Write, c) + syscall_if_in(v, Syscall::Sleep, c)
        + syscall_if_in(v, Syscall::Exit, c)
}

impl Encodable for Syscall {
    open spec fn encoding(&self, c: Constants) -> u8 {
        syscall_byte(*self, c)
    }

    fn encode(&self, c: Constants) -> (r: u8) {
        match self {
            Syscall::Open => c.syscall.OPEN,
            Syscall::ReadCode => c.syscall.READ_CODE,
            Syscall::ReadMemory => c.syscall.READ_MEMORY,
            Syscall::Write => c.syscall.WRITE,
            Syscall::Sleep => c.syscall.SLEEP,
            Syscall::Exit => c.syscall.EXIT,
        }
    }
}

impl Decodable for Syscall {
    open spec fn decodes_to(value: u8, c: Constants, r: Result<Syscall, DecodeError>) -> bool {
        r == syscall_of_byte(value, c)
    }

    fn decode(value: u8, c: Constants) -> (r: Result<Syscall, DecodeError>) {
        if value == c.syscall.OPEN {
            Ok(Syscall::Open)
        } else if value == c.syscall.READ_CODE {
            Ok(Syscall::ReadCode)
        } else if value == c.syscall.READ_MEMORY {
            Ok(Syscall::ReadMemory)
        } else if value == c.syscall.WRITE {
            Ok(Syscall::Write)
        } else if value == c.syscall.SLEEP {
            Ok(Syscall::Sleep)
        } else if value == c.syscall.EXIT {
            Ok(Syscall::Exit)
        } else {
            Err(DecodeError::InvalidOperand(value))
        }
    }
}

impl Encodable for Vec<Syscall> {
    open spec fn encoding(&self, c: Constants) -> u8 {
        syscalls_byte(self@, c)
    }

    fn encode(&self, c: Constants) -> (r: u8) {
        let mut value: u8 = 0;
        let mut i: usize = 0;
        while i < self.len()
            invariant
                i <= self@.len(),
                value == syscalls_byte(self@.take(i as int), c),
            decreases self@.len() - i,
        {
            assert(self@.take(i as int + 1).drop_last() =~= self@.take(i as int));
            value = value | self[i].encode(c);
            i = i + 1;
        }
        assert(self@.take(i as int) =~= self@);
        value
    }
}

impl Decodable for Vec<Syscall> {
    open spec fn decodes_to(value: u8, c: Constants, r: Result<Vec<Syscall>, DecodeError>) -> bool {
        match r {
            Ok(s) => s@ == syscalls_in_byte(value, c),
            Err(_) => false,
        }
    }

    fn decode(value: u8, c: Constants) -> (r: Result<Vec<Syscall>, DecodeError>) {
        let mut syscalls: Vec<Syscall> = Vec::new();
        if value & c.syscall.OPEN != 0 {
            syscalls.push(Syscall::Open);
        }
        if value & c.syscall.READ_CODE != 0 {
            syscalls.push(Syscall::ReadCode);
        }
        if value & c.syscall.READ_MEMORY != 0 {
            syscalls.push(Syscall::ReadMemory);
        }
        if value & c.syscall.WRITE != 0 {
            syscalls.push(Syscall::Write);
        }
        if value & c.syscall.SLEEP != 0 {
            syscalls.push(Syscall::Sleep);
        }
        if value & c.syscall.EXIT != 0 {
            syscalls.push(Syscall::Exit);
        }
        assert(syscalls@ =~= syscalls_in_byte(value, c));
        Ok(syscalls)
    }
}

/// Under a valid syscall table, decoding the number of a syscall gives it back.
pub proof fn lemma_syscall_round_trip(s: Syscall, c: Constants)
    requires
        c.syscall.wf(),
    ensures
        syscall_of_byte(syscall_byte(s, c), c) == Ok::<Syscall, DecodeError>(s),
{
}

} // verus!
