//! The Yan85 emulator.
//!
//! The emulator runs one instruction per [`Emulator::step`]. A system call
//! needs the host: `step` hands back a [`HostCall`] that describes it, the
//! caller performs it, and [`Emulator::resume`] takes the [`HostReply`] and
//! writes its result back.

use vstd::prelude::*;
use crate::constants::{Constants, Decodable, Encodable};
use crate::disassembler::{disassemble, disassemble_spec, DisassembleError};
use crate::flags::{flags_byte, flags_in_byte, lemma_flags_round_trip, lemma_jump_condition, Flags};
use crate::instruction::Instruction;
use crate::memory::{c_string, window, written, Memory, Registers, Stack};
use crate::register::Register;
use crate::syscall::{syscall_of_byte, Syscall};

verus! {

/// A fatal error of the running program.
#[derive(Clone, Copy, Debug, PartialEq, Eq, Structural)]
pub enum RuntimeError {
    /// The instruction pointer names no instruction of the program.
    FetchOutOfRange(u8),
    /// A SYS instruction names no syscall of the table.
    InvalidSyscall(u8),
    /// A syscall that returns a value has no register to receive it.
    MissingResultRegister,
    /// A step was asked for while a host call awaits its reply.
    HostCallPending,
    /// A reply came while no host call awaits one.
    NoHostCallPending,
    /// A reply does not fit the host call that awaits it.
    UnexpectedReply,
    /// A host result that does not fit in one byte.
    ReturnOverflow(u64),
    /// Code read by READ_CODE does not disassemble.
    InvalidCode(DisassembleError),
    /// READ_CODE would leave a gap after the end of the program.
    CodeGap(u8),
}

/// A host call that awaits its reply.
#[derive(Clone, Copy, Debug, PartialEq, Eq, Structural)]
pub struct Pending {
    /// The syscall.
    pub syscall: Syscall,
    /// The register that receives the result.
    pub result: Option<Register>,
    /// Register B when the call was made: where read data goes.
    pub start: u8,
    /// Register C when the call was made: how many bytes to move at most.
    pub count: u8,
}

/// What the host is asked to do.
#[derive(Debug)]
pub enum HostCall {
    /// Open the file with this path.
    Open {
        /// The path's bytes.
        path: Vec<u8>,
    },
    /// Read at most `count` bytes of code from descriptor `fd`.
    ReadCode {
        /// The descriptor.
        fd: u8,
        /// The most bytes to read.
        count: u8,
    },
    /// Read at most `count` bytes of data from descriptor `fd`.
    ReadMemory {
        /// The descriptor.
        fd: u8,
        /// The most bytes to read.
        count: u8,
    },
    /// Write `data` to descriptor `fd`.
    Write {
        /// The descriptor.
        fd: u8,
        /// The bytes to write.
        data: Vec<u8>,
    },
    /// Sleep for `seconds` seconds.
    Sleep {
        /// How long to sleep.
        seconds: u8,
    },
    /// End the process with exit code `code`.
    Exit {
        /// The exit code.
        code: u8,
    },
}

/// What the host did.
#[derive(Debug)]
pub enum HostReply {
    /// The file was opened with this descriptor.
    Opened(u64),
    /// These bytes were read.
    Read(Vec<u8>),
    /// This many bytes were written.
    Written(u64),
    /// The sleep is over.
    Slept,
}

/// The outcome of one step: the instruction run, and the host call it asks for.
#[derive(Debug)]
pub struct Step {
    /// The instruction that was run.
    pub instruction: Instruction,
    /// The host call that a SYS instruction asks for.
    pub call: Option<HostCall>,
}

/// Registers, stack and memory, as sequences of bytes.
pub struct Machine {
    /// The seven registers, in the order a, b, c, d, s, i, f.
    pub registers: Seq<u8>,
    /// The 256 stack cells.
    pub stack: Seq<u8>,
    /// The 256 memory cells.
    pub memory: Seq<u8>,
}

/// What an emulator is: its table, its program, its machine and the host
/// call that awaits a reply.
pub struct EmulatorView {
    /// The encoding table.
    pub constants: Constants,
    /// The instructions.
    pub program: Seq<Instruction>,
    /// Registers, stack and memory.
    pub machine: Machine,
    /// The host call that awaits its reply.
    pub pending: Option<Pending>,
}

/// `v + 1`, wrapping.
pub open spec fn wrapping_inc(v: u8) -> u8 {
    ((v + 1) % 256) as u8
}

/// `v - 1`, wrapping.
pub open spec fn wrapping_dec(v: u8) -> u8 {
    ((v + 255) % 256) as u8
}

/// `a + b`, wrapping.
pub open spec fn wrapping_sum(a: u8, b: u8) -> u8 {
    ((a + b) % 256) as u8
}

/// The flags that comparing `a` with `b` sets.
pub open spec fn compare(a: u8, b: u8) -> Flags {
    Flags {
        less_than: a < b,
        greater_than: a > b,
        equal: a == b,
        not_equal: a != b,
        zeroes: a == 0 && b == 0,
    }
}

impl Machine {
    /// The value of register `r`.
    pub open spec fn reg(self, r: Register) -> u8 {
        self.registers[r.slot()]
    }

    /// The machine with `v` in register `r`.
    pub open spec fn with_reg(self, r: Register, v: u8) -> Machine {
        Machine { registers: self.registers.update(r.slot(), v), stack: self.stack, memory: self.memory }
    }

    /// Pushes register `src`, if any, at the stack pointer and advances it.
    pub open spec fn pushed(self, src: Option<Register>) -> Machine {
        match src {
            Some(r) => Machine {
                registers: self.registers,
                stack: self.stack.update(self.reg(Register::S) as int, self.reg(r)),
                memory: self.memory,
            }.with_reg(Register::S, wrapping_inc(self.reg(Register::S))),
            None => self,
        }
    }

    /// Moves the stack pointer back and pops the cell it then names into
    /// register `dst`, if any.
    pub open spec fn popped(self, dst: Option<Register>) -> Machine {
        match dst {
            Some(r) => {
                let m = self.with_reg(Register::S, wrapping_dec(self.reg(Register::S)));
                m.with_reg(r, m.stack[m.reg(Register::S) as int])
            },
            None => self,
        }
    }

    /// The machine after running `i` (a SYS instruction leaves it as it is:
    /// its effect comes with the host's reply).
    pub open spec fn execute(self, i: Instruction, c: Constants) -> Machine {
        match i {
            Instruction::IMM(r, v) => self.with_reg(r, v),
            Instruction::ADD(a, b) => self.with_reg(a, wrapping_sum(self.reg(a), self.reg(b))),
            Instruction::STK(pop, push) => self.pushed(push).popped(pop),
            Instruction::STM(a, b) => Machine {
                registers: self.registers,
                stack: self.stack,
                memory: self.memory.update(self.reg(a) as int, self.reg(b)),
            },
            Instruction::LDM(a, b) => self.with_reg(a, self.memory[self.reg(b) as int]),
            Instruction::CMP(a, b) => self.with_reg(
                Register::F,
                flags_byte(compare(self.reg(a), self.reg(b)), c),
            ),
            Instruction::JMP(cond, t) => if self.reg(Register::F) & flags_byte(cond, c) != 0 {
                self.with_reg(Register::I, self.reg(t))
            } else {
                self
            },
            Instruction::SYS(..) => self,
        }
    }

    /// Whether `call` is the host call that syscall `s` makes from this machine.
    pub open spec fn asks(self, s: Syscall, call: HostCall) -> bool {
        let a = self.reg(Register::A);
        let b = self.reg(Register::B);
        let count = self.reg(Register::C);
        match (s, call) {
            (Syscall::Open, HostCall::Open { path }) => path@ == c_string(self.memory, a as int),
            (Syscall::ReadCode, HostCall::ReadCode { fd, count: n }) => fd == a && n == count,
            (Syscall::ReadMemory, HostCall::ReadMemory { fd, count: n }) => fd == a && n == count,
            (Syscall::Write, HostCall::Write { fd, data }) => fd == a && data@ == window(
                self.memory,
                b,
                count as int,
            ),
            (Syscall::Sleep, HostCall::Sleep { seconds }) => seconds == a,
            (Syscall::Exit, HostCall::Exit { code }) => code == a,
            _ => false,
        }
    }
}

/// `p` with `d` written from index `start` on, growing it where `d` runs
/// past its end.
pub open spec fn splice(p: Seq<Instruction>, start: int, d: Seq<Instruction>) -> Seq<Instruction> {
    Seq::new(
        if p.len() < start + d.len() {
            (start + d.len()) as nat
        } else {
            p.len()
        },
        |j: int|
            if start <= j < start + d.len() {
                d[j - start]
            } else {
                p[j]
            },
    )
}

impl EmulatorView {
    /// The instruction pointer.
    pub open spec fn ip(self) -> u8 {
        self.machine.reg(Register::I)
    }

    /// The instruction that the next step runs.
    pub open spec fn current(self) -> Instruction {
        self.program[self.ip() as int]
    }

    /// The machine with the instruction pointer advanced.
    pub open spec fn advanced(self) -> Machine {
        self.machine.with_reg(Register::I, wrapping_inc(self.ip()))
    }

    /// The error that the next step fails with, if any.
    pub open spec fn step_error(self) -> Option<RuntimeError> {
        if self.pending is Some {
            Some(RuntimeError::HostCallPending)
        } else if self.ip() >= self.program.len() {
            Some(RuntimeError::FetchOutOfRange(self.ip()))
        } else {
            match self.current() {
                Instruction::SYS(s, r) => match syscall_of_byte(s, self.constants) {
                    Err(_) => Some(RuntimeError::InvalidSyscall(s)),
                    Ok(sc) => if r is None && sc != Syscall::Exit {
                        Some(RuntimeError::MissingResultRegister)
                    } else {
                        None
                    },
                },
                _ => None,
            }
        }
    }

    /// The emulator after a step that does not fail.
    pub open spec fn after_step(self) -> EmulatorView {
        let m = self.advanced();
        match self.current() {
            Instruction::SYS(s, r) => EmulatorView {
                constants: self.constants,
                program: self.program,
                machine: m,
                pending: Some(
                    Pending {
                        syscall: syscall_of_byte(s, self.constants)->Ok_0,
                        result: r,
                        start: m.reg(Register::B),
                        count: m.reg(Register::C),
                    },
                ),
            },
            i => EmulatorView {
                constants: self.constants,
                program: self.program,
                machine: m.execute(i, self.constants),
                pending: None,
            },
        }
    }

    /// Whether `call` is the host call that a step that does not fail asks for.
    pub open spec fn step_call(self, call: Option<HostCall>) -> bool {
        match self.current() {
            Instruction::SYS(s, _) => match call {
                Some(hc) => self.advanced().asks(syscall_of_byte(s, self.constants)->Ok_0, hc),
                None => false,
            },
            _ => call is None,
        }
    }

    /// The error that `reply` is refused with, if any.
    pub open spec fn resume_error(self, reply: HostReply) -> Option<RuntimeError> {
        match self.pending {
            None => Some(RuntimeError::NoHostCallPending),
            Some(p) => if p.result is None {
                Some(RuntimeError::UnexpectedReply)
            } else {
                match (p.syscall, reply) {
                    (Syscall::Open, HostReply::Opened(fd)) => if fd > 255 {
                        Some(RuntimeError::ReturnOverflow(fd))
                    } else {
                        None
                    },
                    (Syscall::ReadMemory, HostReply::Read(data)) => if data@.len() > p.count {
                        Some(RuntimeError::UnexpectedReply)
                    } else {
                        None
                    },
                    (Syscall::ReadCode, HostReply::Read(data)) => if data@.len() > p.count {
                        Some(RuntimeError::UnexpectedReply)
                    } else {
                        match disassemble_spec(data@, self.constants) {
                            Err(e) => Some(RuntimeError::InvalidCode(e)),
                            Ok(_) => if p.start > self.program.len() {
                                Some(RuntimeError::CodeGap(p.start))
                            } else {
                                None
                            },
                        }
                    },
                    (Syscall::Write, HostReply::Written(n)) => if n > p.count {
                        Some(RuntimeError::UnexpectedReply)
                    } else {
                        None
                    },
                    (Syscall::Sleep, HostReply::Slept) => None,
                    _ => Some(RuntimeError::UnexpectedReply),
                }
            },
        }
    }

    /// The emulator after `reply` was taken.
    pub open spec fn after_resume(self, reply: HostReply) -> EmulatorView {
        let p = self.pending->Some_0;
        let r = p.result->Some_0;
        let m = self.machine;
        let (program, machine) = match reply {
            HostReply::Opened(fd) => (self.program, m.with_reg(r, fd as u8)),
            HostReply::Read(data) => if p.syscall == Syscall::ReadCode {
                (
                    splice(
                        self.program,
                        p.start as int,
                        disassemble_spec(data@, self.constants)->Ok_0,
                    ),
                    m.with_reg(r, data@.len() as u8),
                )
            } else {
                (
                    self.program,
                    Machine {
                        registers: m.registers,
                        stack: m.stack,
                        memory: written(m.memory, p.start, data@),
                    }.with_reg(r, data@.len() as u8),
                )
            },
            HostReply::Written(n) => (self.program, m.with_reg(r, n as u8)),
            HostReply::Slept => (self.program, m.with_reg(r, 0)),
        };
        EmulatorView { constants: self.constants, program, machine, pending: None }
    }
}

/// A Yan85 emulator.
pub struct Emulator {
    /// Encoding constants.
    constants: Constants,
    /// Instructions to emulate.
    instructions: Vec<Instruction>,
    /// The Yan85 registers.
    registers: Registers,
    /// The Yan85 stack.
    stack: Stack,
    /// The Yan85 memory.
    memory: Memory,
    /// The host call that awaits its reply.
    pending: Option<Pending>,
}

impl View for Emulator {
    type V = EmulatorView;

    closed spec fn view(&self) -> EmulatorView {
        EmulatorView {
            constants: self.constants,
            program: self.instructions@,
            machine: Machine {
                registers: self.registers@,
                stack: self.stack@,
                memory: self.memory@,
            },
            pending: self.pending,
        }
    }
}

impl Emulator {
    /// The register file has seven cells, stack and memory 256 each.
    pub proof fn lemma_sizes(&self)
        ensures
            self@.machine.registers.len() == 7,
            self@.machine.stack.len() == 256,
            self@.machine.memory.len() == 256,
    {
        self.registers.lemma_len();
        self.stack.lemma_len();
        self.memory.lemma_len();
    }

    /// Constructs a new emulator instance: registers and stack hold zeros.
    pub fn new(constants: Constants, instructions: Vec<Instruction>, memory: Memory) -> (r: Self)
        ensures
            r@.constants == constants,
            r@.program == instructions@,
            r@.machine.registers == Seq::new(7, |k: int| 0u8),
            r@.machine.stack == Seq::new(256, |k: int| 0u8),
            r@.machine.memory == memory@,
            r@.pending is None,
    {
        Self {
            constants,
            instructions,
            registers: Registers::default(),
            stack: Stack::default(),
            memory,
            pending: None,
        }
    }

    /// The encoding table.
    pub fn constants(&self) -> (c: Constants)
        ensures
            c == self@.constants,
    {
        self.constants
    }

    /// The number of instructions in the program.
    pub fn program_len(&self) -> (n: usize)
        ensures
            n == self@.program.len(),
    {
        self.instructions.len()
    }

    /// The host call that awaits its reply, if any.
    pub fn pending(&self) -> (p: Option<Pending>)
        ensures
            p == self@.pending,
    {
        self.pending
    }

    /// The value of register `r`.
    pub fn register(&self, r: Register) -> (v: u8)
        ensures
            v == self@.machine.reg(r),
    {
        self.registers.get(r)
    }

    /// Assigns `v` to register `r`.
    pub fn set_register(&mut self, r: Register, v: u8)
        ensures
            final(self)@ == (EmulatorView { machine: old(self)@.machine.with_reg(r, v), ..old(self)@ }),
    {
        self.registers.set(r, v);
    }

    /// The stack cell at index `i`.
    pub fn stack_at(&self, i: u8) -> (v: u8)
        ensures
            v == self@.machine.stack[i as int],
    {
        self.stack.get(i)
    }

    /// Assigns `v` to the stack cell at index `i`.
    pub fn set_stack(&mut self, i: u8, v: u8)
        ensures
            final(self)@ == (EmulatorView {
                machine: Machine {
                    registers: old(self)@.machine.registers,
                    stack: old(self)@.machine.stack.update(i as int, v),
                    memory: old(self)@.machine.memory,
                },
                ..old(self)@
            }),
    {
        self.stack.set(i, v);
    }

    /// The memory cell at address `i`.
    pub fn memory_at(&self, i: u8) -> (v: u8)
        ensures
            v == self@.machine.memory[i as int],
    {
        self.memory.get(i)
    }

    /// Assigns `v` to the memory cell at address `i`.
    pub fn set_memory(&mut self, i: u8, v: u8)
        ensures
            final(self)@ == (EmulatorView {
                machine: Machine {
                    registers: old(self)@.machine.registers,
                    stack: old(self)@.machine.stack,
                    memory: old(self)@.machine.memory.update(i as int, v),
                },
                ..old(self)@
            }),
    {
        self.memory.set(i, v);
    }

    /// Steps through the next instruction.
    pub fn step(&mut self) -> (r: Result<Step, RuntimeError>)
        ensures
            old(self)@.step_error() matches Some(e) ==> r == Err::<Step, RuntimeError>(e)
                && final(self)@ == old(self)@,
            old(self)@.step_error() is None ==> (r matches Ok(s) && s.instruction == old(self)@.current() && old(self)@.step_call(s.call) && final(self)@ == old(self)@.after_step()),
    {
        if self.pending.is_some() {
            return Err(RuntimeError::HostCallPending);
        }
        let ip = self.registers.get(Register::I);
        if ip as usize >= self.instructions.len() {
            return Err(RuntimeError::FetchOutOfRange(ip));
        }
        let instruction = self.instructions[ip as usize];
        if let Instruction::SYS(s, register) = instruction {
            match Syscall::decode(s, self.constants) {
                Err(_) => {
                    return Err(RuntimeError::InvalidSyscall(s));
                },
                Ok(syscall) => {
                    if register.is_none() && !matches!(syscall, Syscall::Exit) {
                        return Err(RuntimeError::MissingResultRegister);
                    }
                },
            }
        }
        self.registers.set(Register::I, ip.wrapping_add(1));
        let call = self.emulate_instruction(instruction);
        Ok(Step { instruction, call })
    }

    /// Emulates a Yan85 instruction.
    fn emulate_instruction(&mut self, instruction: Instruction) -> (call: Option<HostCall>)
        requires
            old(self).pending is None,
            instruction matches Instruction::SYS(s, r) ==> (syscall_of_byte(s, old(self).constants)
                matches Ok(sc) && (r is Some || sc == Syscall::Exit)),
        ensures
            final(self)@ == (match instruction {
                Instruction::SYS(s, r) => EmulatorView {
                    pending: Some(
                        Pending {
                            syscall: syscall_of_byte(s, old(self)@.constants)->Ok_0,
                            result: r,
                            start: old(self)@.machine.reg(Register::B),
                            count: old(self)@.machine.reg(Register::C),
                        },
                    ),
                    ..old(self)@
                },
                i => EmulatorView {
                    machine: old(self)@.machine.execute(i, old(self)@.constants),
                    ..old(self)@
                },
            }),
            match instruction {
                Instruction::SYS(s, _) => (call matches Some(hc) && old(self)@.machine.asks(
                    syscall_of_byte(s, old(self)@.constants)->Ok_0,
                    hc,
                )),
                _ => call is None,
            },
    {
        match instruction {
            Instruction::IMM(register, value) => {
                self.emulate_imm(register, value);
                None
            },
            Instruction::ADD(a, b) => {
                self.emulate_add(a, b);
                None
            },
            Instruction::STK(pop, push) => {
                self.emulate_stk(pop, push);
                None
            },
            Instruction::STM(a, b) => {
                self.emulate_stm(a, b);
                None
            },
            Instruction::LDM(a, b) => {
                self.emulate_ldm(a, b);
                None
            },
            Instruction::CMP(a, b) => {
                self.emulate_cmp(a, b);
                None
            },
            Instruction::JMP(condition, register) => {
                self.emulate_jmp(condition, register);
                None
            },
            Instruction::SYS(syscall, register) => Some(self.emulate_sys(syscall, register)),
        }
    }

    /// Emulates an `IMM` instruction, assigning `value` to `register`.
    fn emulate_imm(&mut self, register: Register, value: u8)
        ensures
            final(self)@ == (EmulatorView {
                machine: old(self)@.machine.execute(Instruction::IMM(register, value), old(self)@.constants),
                ..old(self)@
            }),
    {
        self.registers.set(register, value);
    }

    /// Emulates an `ADD` instruction, adding the value of `b` to that of `a`,
    /// storing the result in `a`. Overflows wrap around.
    fn emulate_add(&mut self, a: Register, b: Register)
        ensures
            final(self)@ == (EmulatorView {
                machine: old(self)@.machine.execute(Instruction::ADD(a, b), old(self)@.constants),
                ..old(self)@
            }),
    {
        let sum = self.registers.get(a).wrapping_add(self.registers.get(b));
        self.registers.set(a, sum);
    }

    /// Emulates a `STK` instruction, pushing `push`, then popping into `pop`,
    /// each unless absent.
    fn emulate_stk(&mut self, pop: Option<Register>, push: Option<Register>)
        ensures
            final(self)@ == (EmulatorView {
                machine: old(self)@.machine.execute(Instruction::STK(pop, push), old(self)@.constants),
                ..old(self)@
            }),
    {
        proof {
            self.lemma_sizes();
        }
        if let Some(src) = push {
            let sp = self.registers.get(Register::S);
            let v = self.registers.get(src);
            self.stack.set(sp, v);
            self.registers.set(Register::S, sp.wrapping_add(1));
        }
        if let Some(dest) = pop {
            let sp = self.registers.get(Register::S).wrapping_sub(1);
            self.registers.set(Register::S, sp);
            let v = self.stack.get(sp);
            self.registers.set(dest, v);
        }
    }

    /// Emulates a `STM` instruction, assigning the value of `b` to the
    /// location referenced by `a`. In other words, it performs `*a = b`.
    fn emulate_stm(&mut self, a: Register, b: Register)
        ensures
            final(self)@ == (EmulatorView {
                machine: old(self)@.machine.execute(Instruction::STM(a, b), old(self)@.constants),
                ..old(self)@
            }),
    {
        let address = self.registers.get(a);
        let value = self.registers.get(b);
        self.memory.set(address, value);
    }

    /// Emulates a `LDM` instruction, assigning the value at the location
    /// referenced by `b` to `a`. In other words, it performs `a = *b`.
    fn emulate_ldm(&mut self, a: Register, b: Register)
        ensures
            final(self)@ == (EmulatorView {
                machine: old(self)@.machine.execute(Instruction::LDM(a, b), old(self)@.constants),
                ..old(self)@
            }),
    {
        let value = self.memory.get(self.registers.get(b));
        self.registers.set(a, value);
    }

    /// Emulates a `CMP` instruction, comparing `a` and `b` and assigning a
    /// representation of their relationship to register F.
    fn emulate_cmp(&mut self, a: Register, b: Register)
        ensures
            final(self)@ == (EmulatorView {
                machine: old(self)@.machine.execute(Instruction::CMP(a, b), old(self)@.constants),
                ..old(self)@
            }),
    {
        let a = self.registers.get(a);
        let b = self.registers.get(b);

        let mut flags = Flags::default();

        if a < b {
            flags.less_than = true;
            flags.not_equal = true;
        } else if a > b {
            flags.greater_than = true;
            flags.not_equal = true;
        } else {
            flags.equal = true;
        }

        if a == 0 && b == 0 {
            flags.zeroes = true;
        }

        let value = flags.encode(self.constants);
        self.registers.set(Register::F, value);
    }

    /// Emulates a `JMP` instruction, comparing the conditions encoded in
    /// `condition` to those in register F, jumping to the instruction
    /// referenced by `register` if any of the conditions match.
    fn emulate_jmp(&mut self, condition: Flags, register: Register)
        ensures
            final(self)@ == (EmulatorView {
                machine: old(self)@.machine.execute(Instruction::JMP(condition, register), old(self)@.constants),
                ..old(self)@
            }),
    {
        let f = self.registers.get(Register::F);
        let comparison_result = Flags::within(f, self.constants);
        proof {
            lemma_jump_condition(f, condition, self.constants);
        }
        if comparison_result.does_match(&condition) {
            let target = self.registers.get(register);
            self.registers.set(Register::I, target);
        }
    }

    /// Emulates a `SYS` instruction: describes the host call and records
    /// where its result goes.
    fn emulate_sys(&mut self, syscall: u8, register: Option<Register>) -> (call: HostCall)
        requires
            old(self).pending is None,
            syscall_of_byte(syscall, old(self).constants) is Ok,
        ensures
            final(self)@ == (EmulatorView {
                pending: Some(
                    Pending {
                        syscall: syscall_of_byte(syscall, old(self)@.constants)->Ok_0,
                        result: register,
                        start: old(self)@.machine.reg(Register::B),
                        count: old(self)@.machine.reg(Register::C),
                    },
                ),
                ..old(self)@
            }),
            old(self)@.machine.asks(syscall_of_byte(syscall, old(self)@.constants)->Ok_0, call),
    {
        let syscall = Syscall::decode(syscall, self.constants).unwrap();

        let a = self.registers.get(Register::A);
        let b = self.registers.get(Register::B);
        let c = self.registers.get(Register::C);

        let call = match syscall {
            Syscall::Open => HostCall::Open { path: self.memory.c_string_at(a) },
            Syscall::ReadCode => HostCall::ReadCode { fd: a, count: c },
            Syscall::ReadMemory => HostCall::ReadMemory { fd: a, count: c },
            Syscall::Write => HostCall::Write { fd: a, data: self.memory.window(b, c) },
            Syscall::Sleep => HostCall::Sleep { seconds: a },
            Syscall::Exit => HostCall::Exit { code: a },
        };
        self.pending = Some(Pending { syscall, result: register, start: b, count: c });
        call
    }

    /// Takes the host's reply to the pending host call and writes its result back.
    pub fn resume(&mut self, reply: HostReply) -> (r: Result<(), RuntimeError>)
        requires
            old(self)@.constants.byte_order.wf(),
        ensures
            old(self)@.resume_error(reply) matches Some(e) ==> r == Err::<(), RuntimeError>(e)
                && final(self)@ == old(self)@,
            old(self)@.resume_error(reply) is None ==> r is Ok && final(self)@ == old(self)@.after_resume(reply),
    {
        let p = match self.pending {
            None => {
                return Err(RuntimeError::NoHostCallPending);
            },
            Some(p) => p,
        };
        let register = match p.result {
            None => {
                return Err(RuntimeError::UnexpectedReply);
            },
            Some(r) => r,
        };
        match reply {
            HostReply::Opened(fd) => {
                if !matches!(p.syscall, Syscall::Open) {
                    return Err(RuntimeError::UnexpectedReply);
                }
                self.syscall_open(register, fd)?;
            },
            HostReply::Read(data) => {
                if data.len() > p.count as usize {
                    return Err(RuntimeError::UnexpectedReply);
                }
                match p.syscall {
                    Syscall::ReadCode => {
                        self.syscall_read_code(p.start, register, data)?;
                    },
                    Syscall::ReadMemory => {
                        self.syscall_read_memory(p.start, register, &data);
                    },
                    _ => {
                        return Err(RuntimeError::UnexpectedReply);
                    },
                }
            },
            HostReply::Written(n) => {
                if !matches!(p.syscall, Syscall::Write) || n > p.count as u64 {
                    return Err(RuntimeError::UnexpectedReply);
                }
                self.syscall_write(register, n as u8);
            },
            HostReply::Slept => {
                if !matches!(p.syscall, Syscall::Sleep) {
                    return Err(RuntimeError::UnexpectedReply);
                }
                self.syscall_sleep(register);
            },
        }
        self.pending = None;
        Ok(())
    }

    /// Stores the descriptor that OPEN obtained; one that does not fit in a
    /// byte is an error.
    fn syscall_open(&mut self, register: Register, fd: u64) -> (r: Result<(), RuntimeError>)
        ensures
            fd > 255 ==> r == Err::<(), RuntimeError>(RuntimeError::ReturnOverflow(fd))
                && final(self)@ == old(self)@,
            fd <= 255 ==> r is Ok && final(self)@ == (EmulatorView {
                machine: old(self)@.machine.with_reg(register, fd as u8),
                ..old(self)@
            }),
    {
        if fd > 255 {
            return Err(RuntimeError::ReturnOverflow(fd));
        }
        self.registers.set(register, fd as u8);
        Ok(())
    }

    /// Decodes the code that READ_CODE read and writes it into the program
    /// from instruction index `start` on, then stores the number of bytes read.
    fn syscall_read_code(&mut self, start: u8, register: Register, data: Vec<u8>) -> (r: Result<
        (),
        RuntimeError,
    >)
        requires
            old(self)@.constants.byte_order.wf(),
            data@.len() <= 255,
        ensures
            match disassemble_spec(data@, old(self)@.constants) {
                Err(e) => r == Err::<(), RuntimeError>(RuntimeError::InvalidCode(e)) && final(self)@ == old(self)@,
                Ok(d) => if start > old(self)@.program.len() {
                    r == Err::<(), RuntimeError>(RuntimeError::CodeGap(start)) && final(self)@ == old(self)@
                } else {
                    r is Ok && final(self)@ == (EmulatorView {
                        program: splice(old(self)@.program, start as int, d),
                        machine: old(self)@.machine.with_reg(register, data@.len() as u8),
                        ..old(self)@
                    })
                },
            },
    {
        let n = data.len() as u8;
        let decoded = match disassemble(data, self.constants) {
            Ok(d) => d,
            Err(e) => {
                return Err(RuntimeError::InvalidCode(e));
            },
        };
        if start as usize > self.instructions.len() {
            return Err(RuntimeError::CodeGap(start));
        }
        let ghost p0 = self.instructions@;
        let mut k: usize = 0;
        while k < decoded.len()
            invariant
                k <= decoded@.len(),
                3 * decoded@.len() <= 255,
                start <= p0.len(),
                self.instructions@ == splice(p0, start as int, decoded@.take(k as int)),
                self@ == (EmulatorView { program: self.instructions@, ..old(self)@ }),
            decreases decoded@.len() - k,
        {
            let idx = start as usize + k;
            if idx < self.instructions.len() {
                self.instructions.set(idx, decoded[k]);
            } else {
                self.instructions.push(decoded[k]);
            }
            k = k + 1;
            assert(self.instructions@ =~= splice(p0, start as int, decoded@.take(k as int)));
        }
        assert(decoded@.take(k as int) =~= decoded@);
        self.registers.set(register, n);
        Ok(())
    }

    /// Writes the bytes that READ_MEMORY read into memory from address
    /// `start` on, wrapping around, then stores how many there were.
    fn syscall_read_memory(&mut self, start: u8, register: Register, data: &Vec<u8>)
        requires
            data@.len() <= 255,
        ensures
            final(self)@ == (EmulatorView {
                machine: Machine {
                    registers: old(self)@.machine.registers,
                    stack: old(self)@.machine.stack,
                    memory: written(old(self)@.machine.memory, start, data@),
                }.with_reg(register, data@.len() as u8),
                ..old(self)@
            }),
    {
        self.memory.write_window(start, data);
        self.registers.set(register, data.len() as u8);
    }

    /// Stores how many bytes WRITE wrote.
    fn syscall_write(&mut self, register: Register, written: u8)
        ensures
            final(self)@ == (EmulatorView {
                machine: old(self)@.machine.with_reg(register, written),
                ..old(self)@
            }),
    {
        self.registers.set(register, written);
    }

    /// Stores the zero that SLEEP returns.
    fn syscall_sleep(&mut self, register: Register)
        ensures
            final(self)@ == (EmulatorView {
                machine: old(self)@.machine.with_reg(register, 0),
                ..old(self)@
            }),
    {
        self.registers.set(register, 0);
    }
}

/// Comparison flags: after `CMP a b` register F holds, under a valid flag
/// table, the bits of L and N when a < b, of G and N when a > b, of E when
/// they are equal, and of Z exactly when both are zero; every other flag's
/// bit is clear, whatever F held before.
pub proof fn lemma_cmp_flags(m: Machine, a: Register, b: Register, c: Constants)
    requires
        c.flag.wf(),
        m.registers.len() == 7,
    ensures
        ({
            let f = m.execute(Instruction::CMP(a, b), c).reg(Register::F);
            let x = m.reg(a);
            let y = m.reg(b);
            &&& (f & c.flag.L != 0) == (x < y)
            &&& (f & c.flag.G != 0) == (x > y)
            &&& (f & c.flag.E != 0) == (x == y)
            &&& (f & c.flag.N != 0) == (x != y)
            &&& (f & c.flag.Z != 0) == (x == 0 && y == 0)
        }),
{
    lemma_flags_round_trip(compare(m.reg(a), m.reg(b)), c);
}

/// A jump is taken when some flag of its condition has its bit set in
/// register F (any overlap, not all bits): the instruction pointer then
/// takes the target register's value, else nothing changes.
pub proof fn lemma_jump_any_bit(m: Machine, cond: Flags, target: Register, c: Constants)
    requires
        m.registers.len() == 7,
    ensures
        flags_in_byte(m.reg(Register::F), c).matches(cond) ==> m.execute(
            Instruction::JMP(cond, target),
            c,
        ) == m.with_reg(Register::I, m.reg(target)),
        !flags_in_byte(m.reg(Register::F), c).matches(cond) ==> m.execute(
            Instruction::JMP(cond, target),
            c,
        ) == m,
{
    lemma_jump_condition(m.reg(Register::F), cond, c);
}

/// Addition wraps: `ADD a b` leaves (a + b) mod 256 in `a` and no other
/// register changes.
pub proof fn lemma_add_wraps(m: Machine, a: Register, b: Register, c: Constants)
    requires
        m.registers.len() == 7,
    ensures
        m.execute(Instruction::ADD(a, b), c).reg(a) == (m.reg(a) + m.reg(b)) % 256,
        forall|r: Register| r != a ==> m.execute(Instruction::ADD(a, b), c).reg(r) == m.reg(r),
{
}

/// A push followed by a pop moves a value through the stack: the stack
/// pointer ends where it started and the popped register holds the pushed
/// register's former value.
pub proof fn lemma_push_then_pop(m: Machine, src: Register, dst: Register, c: Constants)
    requires
        m.registers.len() == 7,
        m.stack.len() == 256,
        dst != Register::S,
    ensures
        ({
            let m1 = m.execute(Instruction::STK(None, Some(src)), c);
            let m2 = m1.execute(Instruction::STK(Some(dst), None), c);
            &&& m1.reg(Register::S) == (m.reg(Register::S) + 1) % 256
            &&& m1.stack[m.reg(Register::S) as int] == m.reg(src)
            &&& m2.reg(Register::S) == m.reg(Register::S)
            &&& m2.reg(dst) == m.reg(src)
        }),
{
}

} // verus!
