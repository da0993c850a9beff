//! The Yan85 register file, stack, memory and code storage.

use vstd::prelude::*;
use crate::register::Register;

verus! {

/// The size of the code storage in bytes.
///
/// Can store up to 256 instructions, each occupying 3 bytes.
pub const CODE_SIZE: usize = 768;

/// The 256-byte index that lies `k` bytes after `start`, wrapping around.
pub open spec fn wrapped(start: u8, k: int) -> int {
    (start + k) % 256
}

/// The bytes from `i` up to the first zero byte of `mem`, or up to its end.
pub open spec fn nul_end(mem: Seq<u8>, i: int) -> int
    decreases mem.len() - i,
{
    if i >= mem.len() {
        mem.len() as int
    } else if mem[i] == 0 {
        i
    } else {
        nul_end(mem, i + 1)
    }
}

/// The zero-terminated byte string of `mem` that starts at `start`; it ends
/// at the end of `mem` if no zero byte follows.
pub open spec fn c_string(mem: Seq<u8>, start: int) -> Seq<u8> {
    mem.subrange(start, nul_end(mem, start))
}

/// The `count` bytes of `mem` from `start` on, wrapping around.
pub open spec fn window(mem: Seq<u8>, start: u8, count: int) -> Seq<u8> {
    Seq::new(count as nat, |k: int| mem[wrapped(start, k)])
}

/// `mem` with `data` written from `start` on, wrapping around.
pub open spec fn written(mem: Seq<u8>, start: u8, data: Seq<u8>) -> Seq<u8> {
    Seq::new(
        mem.len(),
        |j: int|
            if (j - start + 256) % 256 < data.len() {
                data[(j - start + 256) % 256]
            } else {
                mem[j]
            },
    )
}

/// The seven 8-bit Yan85 registers.
pub struct Registers([u8; 7]);

impl View for Registers {
    type V = Seq<u8>;

    closed spec fn view(&self) -> Seq<u8> {
        self.0@
    }
}

impl Registers {
    /// The register file holds seven cells.
    pub proof fn lemma_len(&self)
        ensures
            self@.len() == 7,
    {
    }

    /// The value of register `r`.
    pub fn get(&self, r: Register) -> (v: u8)
        ensures
            v == self@[r.slot()],
    {
        self.0[r.index()]
    }

    /// Assigns `v` to register `r`.
    pub fn set(&mut self, r: Register, v: u8)
        ensures
            final(self)@ == old(self)@.update(r.slot(), v),
    {
        self.0[r.index()] = v;
    }
}

impl Default for Registers {
    fn default() -> (r: Registers)
        ensures
            r@ == Seq::new(7, |k: int| 0u8),
    {
        let r = Registers([0; 7]);
        assert(r@ =~= Seq::new(7, |k: int| 0u8));
        r
    }
}

/// The 256-byte Yan85 stack.
pub struct Stack([u8; 256]);

impl View for Stack {
    type V = Seq<u8>;

    closed spec fn view(&self) -> Seq<u8> {
        self.0@
    }
}

impl Stack {
    /// The stack holds 256 cells.
    pub proof fn lemma_len(&self)
        ensures
            self@.len() == 256,
    {
    }

    /// The value at index `i`.
    pub fn get(&self, i: u8) -> (v: u8)
        ensures
            v == self@[i as int],
    {
        self.0[i as usize]
    }

    /// Assigns `v` to index `i`.
    pub fn set(&mut self, i: u8, v: u8)
        ensures
            final(self)@ == old(self)@.update(i as int, v),
    {
        self.0[i as usize] = v;
    }
}

impl Default for Stack {
    fn default() -> (r: Stack)
        ensures
            r@ == Seq::new(256, |k: int| 0u8),
    {
        let r = Stack([0; 256]);
        assert(r@ =~= Seq::new(256, |k: int| 0u8));
        r
    }
}

/// The 256-byte Yan85 memory.
pub struct Memory([u8; 256]);

impl View for Memory {
    type V = Seq<u8>;

    closed spec fn view(&self) -> Seq<u8> {
        self.0@
    }
}

impl Memory {
    /// The memory holds 256 cells.
    pub proof fn lemma_len(&self)
        ensures
            self@.len() == 256,
    {
    }

    /// The value at address `i`.
    pub fn get(&self, i: u8) -> (v: u8)
        ensures
            v == self@[i as int],
    {
        self.0[i as usize]
    }

    /// Assigns `v` to address `i`.
    pub fn set(&mut self, i: u8, v: u8)
        ensures
            final(self)@ == old(self)@.update(i as int, v),
    {
        self.0[i as usize] = v;
    }

    /// The zero-terminated byte string at `start`, without its terminator.
    pub fn c_string_at(&self, start: u8) -> (r: Vec<u8>)
        ensures
            r@ == c_string(self@, start as int),
    {
        let mut out: Vec<u8> = Vec::new();
        let mut i: usize = start as usize;
        while i < 256 && self.0[i] != 0
            invariant
                start <= i <= 256,
                self@.len() == 256,
                nul_end(self@, i as int) == nul_end(self@, start as int),
                out@ == self@.subrange(start as int, i as int),
            decreases 256 - i,
        {
            out.push(self.0[i]);
            i = i + 1;
            assert(out@ =~= self@.subrange(start as int, i as int));
        }
        out
    }

    /// The `count` bytes from `start` on, wrapping around.
    pub fn window(&self, start: u8, count: u8) -> (r: Vec<u8>)
        ensures
            r@ == window(self@, start, count as int),
    {
        let mut out: Vec<u8> = Vec::new();
        let mut k: u8 = 0;
        while k < count
            invariant
                k <= count,
                self@.len() == 256,
                out@ == window(self@, start, k as int),
            decreases count - k,
        {
            out.push(self.0[start.wrapping_add(k) as usize]);
            k = k + 1;
            assert(out@ =~= window(self@, start, k as int));
        }
        out
    }

    /// Writes `data` from `start` on, wrapping around.
    pub fn write_window(&mut self, start: u8, data: &Vec<u8>)
        requires
            data@.len() <= 256,
        ensures
            final(self)@ == written(old(self)@, start, data@),
    {
        let mut k: usize = 0;
        while k < data.len()
            invariant
                k <= data@.len() <= 256,
                self@.len() == 256,
                self@ == written(old(self)@, start, data@.take(k as int)),
            decreases data@.len() - k,
        {
            let j = start.wrapping_add(k as u8);
            self.0[j as usize] = data[k];
            k = k + 1;
            assert(self@ =~= written(old(self)@, start, data@.take(k as int)));
        }
        assert(data@.take(k as int) =~= data@);
    }
}

impl Default for Memory {
    fn default() -> (r: Memory)
        ensures
            r@ == Seq::new(256, |k: int| 0u8),
    {
        let r = Memory([0; 256]);
        assert(r@ =~= Seq::new(256, |k: int| 0u8));
        r
    }
}

impl From<[u8; 256]> for Memory {
    fn from(value: [u8; 256]) -> (r: Memory)
        ensures
            r@ == value@,
    {
        Memory(value)
    }
}

impl vstd::std_specs::convert::FromSpecImpl<[u8; 256]> for Memory {
    open spec fn obeys_from_spec() -> bool {
        true
    }

    closed spec fn from_spec(v: [u8; 256]) -> Memory {
        Memory(v)
    }
}

/// The code storage could not hold that many bytes.
#[derive(Clone, Copy, Debug, PartialEq, Eq, Structural)]
pub struct CodeTooLong {
    /// The number of bytes that did not fit.
    pub len: usize,
}

/// 768-byte Yan85 code storage.
pub struct Code([u8; CODE_SIZE]);

impl View for Code {
    type V = Seq<u8>;

    closed spec fn view(&self) -> Seq<u8> {
        self.0@
    }
}

impl Code {
    /// Get the instruction 3-tuple for instruction number `number`.
    pub fn get_instruction(&self, number: u8) -> (r: [u8; 3])
        ensures
            r@ == self@.subrange(3 * number, 3 * number + 3),
    {
        let n = 3 * number as usize;
        let r = [self.0[n], self.0[n + 1], self.0[n + 2]];
        assert(r@ =~= self@.subrange(3 * number, 3 * number + 3));
        r
    }

    /// Stores `bytes` at the start of the code storage and zeroes the rest;
    /// fails if there are more than 768 of them.
    pub fn try_from(bytes: Vec<u8>) -> (r: Result<Code, CodeTooLong>)
        ensures
            bytes@.len() > CODE_SIZE ==> r == Err::<Code, CodeTooLong>(
                CodeTooLong { len: bytes@.len() as usize },
            ),
            bytes@.len() <= CODE_SIZE ==> (r matches Ok(code) && code@ == Seq::new(
                CODE_SIZE as nat,
                |k: int|
                    if k < bytes@.len() {
                        bytes@[k]
                    } else {
                        0u8
                    },
            )),
    {
        if bytes.len() > CODE_SIZE {
            return Err(CodeTooLong { len: bytes.len() });
        }
        let mut code = [0u8; CODE_SIZE];
        let mut k: usize = 0;
        while k < bytes.len()
            invariant
                k <= bytes@.len() <= CODE_SIZE,
                code@.len() == CODE_SIZE,
                forall|j: int| 0 <= j < k ==> code@[j] == bytes@[j],
                forall|j: int| k <= j < CODE_SIZE ==> code@[j] == 0u8,
            decreases bytes@.len() - k,
        {
            code[k] = bytes[k];
            k = k + 1;
        }
        let r = Code(code);
        assert(r@ =~= Seq::new(
            CODE_SIZE as nat,
            |k: int|
                if k < bytes@.len() {
                    bytes@[k]
                } else {
                    0u8
                },
        ));
        Ok(r)
    }
}

impl Default for Code {
    fn default() -> (r: Code)
        ensures
            r@ == Seq::new(CODE_SIZE as nat, |k: int| 0u8),
    {
        let r = Code([0; CODE_SIZE]);
        assert(r@ =~= Seq::new(CODE_SIZE as nat, |k: int| 0u8));
        r
    }
}

impl From<[u8; CODE_SIZE]> for Code {
    fn from(value: [u8; CODE_SIZE]) -> (r: Code)
        ensures
            r@ == value@,
    {
        Code(value)
    }
}

impl vstd::std_specs::convert::FromSpecImpl<[u8; CODE_SIZE]> for Code {
    open spec fn obeys_from_spec() -> bool {
        true
    }

    closed spec fn from_spec(v: [u8; CODE_SIZE]) -> Code {
        Code(v)
    }
}

} // verus!
