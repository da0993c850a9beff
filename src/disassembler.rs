//! The disassembler: machine code to instructions.

use vstd::prelude::*;
use crate::assembler::{
    assemble_spec, encode_spec, layout, opcode_byte, operand_a, operand_b,
};
use crate::constants::{Constants, Decodable, DecodeError};
use crate::flags::{flags_of_byte, lemma_flags_round_trip, Flags};
use crate::instruction::Instruction;
use crate::register::{
    lemma_opt_register_round_trip, lemma_register_round_trip, opt_register_of_byte,
    register_of_byte, Register,
};

verus! {

/// Why a byte stream could not be disassembled.
#[derive(Clone, Copy, Debug, PartialEq, Eq, Structural)]
pub enum DisassembleError {
    /// The stream's length, which is not a multiple of three.
    InvalidLength(usize),
    /// The index of the first chunk that failed to decode, and why.
    InvalidChunk(usize, DecodeError),
}

/// Two register operands, the first one decoded first.
pub open spec fn registers_of_bytes(a: u8, b: u8, c: Constants) -> Result<
    (Register, Register),
    DecodeError,
> {
    match register_of_byte(a, c) {
        Err(e) => Err(e),
        Ok(ra) => match register_of_byte(b, c) {
            Err(e) => Err(e),
            Ok(rb) => Ok((ra, rb)),
        },
    }
}

/// The instruction with opcode byte `op` and operand bytes `a` and `b`.
pub open spec fn decode_fields(op: u8, a: u8, b: u8, c: Constants) -> Result<
    Instruction,
    DecodeError,
> {
    let o = c.opcode;
    if op == o.IMM {
        match register_of_byte(a, c) {
            Ok(r) => Ok(Instruction::IMM(r, b)),
            Err(e) => Err(e),
        }
    } else if op == o.ADD {
        match registers_of_bytes(a, b, c) {
            Ok((ra, rb)) => Ok(Instruction::ADD(ra, rb)),
            Err(e) => Err(e),
        }
    } else if op == o.STK {
        match opt_register_of_byte(a, c) {
            Err(e) => Err(e),
            Ok(ra) => match opt_register_of_byte(b, c) {
                Err(e) => Err(e),
                Ok(rb) => Ok(Instruction::STK(ra, rb)),
            },
        }
    } else if op == o.STM {
        match registers_of_bytes(a, b, c) {
            Ok((ra, rb)) => Ok(Instruction::STM(ra, rb)),
            Err(e) => Err(e),
        }
    } else if op == o.LDM {
        match registers_of_bytes(a, b, c) {
            Ok((ra, rb)) => Ok(Instruction::LDM(ra, rb)),
            Err(e) => Err(e),
        }
    } else if op == o.CMP {
        match registers_of_bytes(a, b, c) {
            Ok((ra, rb)) => Ok(Instruction::CMP(ra, rb)),
            Err(e) => Err(e),
        }
    } else if op == o.JMP {
        match flags_of_byte(a, c) {
            Err(e) => Err(e),
            Ok(f) => match register_of_byte(b, c) {
                Err(e) => Err(e),
                Ok(rb) => Ok(Instruction::JMP(f, rb)),
            },
        }
    } else if op == o.SYS {
        match opt_register_of_byte(b, c) {
            Err(e) => Err(e),
            Ok(rb) => Ok(Instruction::SYS(a, rb)),
        }
    } else {
        Err(DecodeError::InvalidOpcode(op))
    }
}

/// The instruction that three wire bytes stand for: the opcode and the two
/// operands are read from the slots that the byte order gives them.
pub open spec fn decode_spec(bytes: Seq<u8>, c: Constants) -> Result<Instruction, DecodeError> {
    decode_fields(
        bytes[c.byte_order.op as int],
        bytes[c.byte_order.a as int],
        bytes[c.byte_order.b as int],
        c,
    )
}

/// The `k`-th three-byte chunk of `bytes`.
pub open spec fn chunk(bytes: Seq<u8>, k: int) -> Seq<u8> {
    bytes.subrange(3 * k, 3 * k + 3)
}

/// Decodes the first `n` chunks of `bytes`, stopping at the first that fails.
pub open spec fn decode_chunks(bytes: Seq<u8>, c: Constants, n: nat) -> Result<
    Seq<Instruction>,
    DisassembleError,
>
    decreases n,
{
    if n == 0 {
        Ok(seq![])
    } else {
        match decode_chunks(bytes, c, (n - 1) as nat) {
            Err(e) => Err(e),
            Ok(s) => match decode_spec(chunk(bytes, n - 1), c) {
                Ok(i) => Ok(s.push(i)),
                Err(e) => Err(DisassembleError::InvalidChunk((n - 1) as usize, e)),
            },
        }
    }
}

/// What disassembling `bytes` gives: a length that is not a multiple of three
/// is rejected, else every chunk is decoded in order and the first failure
/// ends it.
pub open spec fn disassemble_spec(bytes: Seq<u8>, c: Constants) -> Result<
    Seq<Instruction>,
    DisassembleError,
> {
    if bytes.len() % 3 != 0 {
        Err(DisassembleError::InvalidLength(bytes.len() as usize))
    } else {
        decode_chunks(bytes, c, (bytes.len() / 3) as nat)
    }
}

/// Whether `r` is the executable form of the outcome `s`.
pub open spec fn same_outcome(
    r: Result<Vec<Instruction>, DisassembleError>,
    s: Result<Seq<Instruction>, DisassembleError>,
) -> bool {
    match (r, s) {
        (Ok(v), Ok(t)) => v@ == t,
        (Err(e), Err(f)) => e == f,
        _ => false,
    }
}

proof fn lemma_decode_chunks_stays_failed(bytes: Seq<u8>, c: Constants, m: nat, n: nat)
    requires
        m <= n,
        decode_chunks(bytes, c, m) is Err,
    ensures
        decode_chunks(bytes, c, n) == decode_chunks(bytes, c, m),
    decreases n - m,
{
    if m < n {
        lemma_decode_chunks_stays_failed(bytes, c, m, (n - 1) as nat);
    }
}

/// Attempts to convert the given bytes to Yan85 instructions.
pub fn disassemble(bytes: Vec<u8>, constants: Constants) -> (r: Result<
    Vec<Instruction>,
    DisassembleError,
>)
    requires
        constants.byte_order.wf(),
    ensures
        same_outcome(r, disassemble_spec(bytes@, constants)),
        r matches Ok(v) ==> 3 * v@.len() == bytes@.len(),
{
    if bytes.len() % 3 != 0 {
        return Err(DisassembleError::InvalidLength(bytes.len()));
    }
    let n = bytes.len() / 3;
    let mut out: Vec<Instruction> = Vec::new();
    let mut k: usize = 0;
    while k < n
        invariant
            n == bytes@.len() / 3,
            bytes@.len() % 3 == 0,
            k <= n,
            constants.byte_order.wf(),
            decode_chunks(bytes@, constants, k as nat) == Ok::<
                Seq<Instruction>,
                DisassembleError,
            >(out@),
            out@.len() == k,
        decreases n - k,
    {
        let data: [u8; 3] = [bytes[3 * k], bytes[3 * k + 1], bytes[3 * k + 2]];
        assert(data@ =~= chunk(bytes@, k as int));
        match disassemble_instruction(data, constants) {
            Ok(i) => {
                out.push(i);
            },
            Err(e) => {
                proof {
                    lemma_decode_chunks_stays_failed(bytes@, constants, (k + 1) as nat, n as nat);
                }
                return Err(DisassembleError::InvalidChunk(k, e));
            },
        }
        k = k + 1;
    }
    Ok(out)
}

/// Attempts to convert the given byte 3-tuple to a Yan85 instruction.
pub fn disassemble_instruction(bytes: [u8; 3], constants: Constants) -> (r: Result<
    Instruction,
    DecodeError,
>)
    requires
        constants.byte_order.wf(),
    ensures
        r == decode_spec(bytes@, constants),
{
    let bo = constants.byte_order;
    let o = constants.opcode;

    let op = bytes[bo.op as usize];
    let a = bytes[bo.a as usize];
    let b = bytes[bo.b as usize];

    if op == o.IMM {
        Ok(Instruction::IMM(Register::decode(a, constants)?, b))
    } else if op == o.ADD {
        let ra = Register::decode(a, constants)?;
        Ok(Instruction::ADD(ra, Register::decode(b, constants)?))
    } else if op == o.STK {
        let ra = Option::<Register>::decode(a, constants)?;
        Ok(Instruction::STK(ra, Option::<Register>::decode(b, constants)?))
    } else if op == o.STM {
        let ra = Register::decode(a, constants)?;
        Ok(Instruction::STM(ra, Register::decode(b, constants)?))
    } else if op == o.LDM {
        let ra = Register::decode(a, constants)?;
        Ok(Instruction::LDM(ra, Register::decode(b, constants)?))
    } else if op == o.CMP {
        let ra = Register::decode(a, constants)?;
        Ok(Instruction::CMP(ra, Register::decode(b, constants)?))
    } else if op == o.JMP {
        let f = Flags::decode(a, constants)?;
        Ok(Instruction::JMP(f, Register::decode(b, constants)?))
    } else if op == o.SYS {
        Ok(Instruction::SYS(a, Option::<Register>::decode(b, constants)?))
    } else {
        Err(DecodeError::InvalidOpcode(op))
    }
}

/// Round trip: under a valid table, decoding the wire form of any
/// instruction gives that instruction back.
pub proof fn lemma_round_trip(i: Instruction, c: Constants)
    requires
        c.wf(),
    ensures
        decode_spec(encode_spec(i, c), c) == Ok::<Instruction, DecodeError>(i),
{
    let e = encode_spec(i, c);
    assert(e[c.byte_order.op as int] == opcode_byte(i, c));
    assert(e[c.byte_order.a as int] == operand_a(i, c));
    assert(e[c.byte_order.b as int] == operand_b(i, c));
    match i {
        Instruction::IMM(r, _) => {
            lemma_register_round_trip(r, c);
        },
        Instruction::ADD(ra, rb) => {
            lemma_register_round_trip(ra, c);
            lemma_register_round_trip(rb, c);
        },
        Instruction::STK(ra, rb) => {
            lemma_opt_register_round_trip(ra, c);
            lemma_opt_register_round_trip(rb, c);
        },
        Instruction::STM(ra, rb) => {
            lemma_register_round_trip(ra, c);
            lemma_register_round_trip(rb, c);
        },
        Instruction::LDM(ra, rb) => {
            lemma_register_round_trip(ra, c);
            lemma_register_round_trip(rb, c);
        },
        Instruction::CMP(ra, rb) => {
            lemma_register_round_trip(ra, c);
            lemma_register_round_trip(rb, c);
        },
        Instruction::JMP(f, rb) => {
            lemma_flags_round_trip(f, c);
            lemma_register_round_trip(rb, c);
        },
        Instruction::SYS(_, rb) => {
            lemma_opt_register_round_trip(rb, c);
        },
    }
}

/// Byte-order independence: two valid tables that differ at most in their
/// byte order put the same opcode and operand bytes on the wire, each in the
/// slot its own byte order names, and both round-trip.
pub proof fn lemma_byte_order_independence(i: Instruction, c1: Constants, c2: Constants)
    requires
        c1.wf(),
        c2.wf(),
        c1.opcode == c2.opcode,
        c1.register == c2.register,
        c1.syscall == c2.syscall,
        c1.flag == c2.flag,
    ensures
        encode_spec(i, c2)[c2.byte_order.op as int] == encode_spec(i, c1)[c1.byte_order.op as int],
        encode_spec(i, c2)[c2.byte_order.a as int] == encode_spec(i, c1)[c1.byte_order.a as int],
        encode_spec(i, c2)[c2.byte_order.b as int] == encode_spec(i, c1)[c1.byte_order.b as int],
        decode_spec(encode_spec(i, c1), c1) == Ok::<Instruction, DecodeError>(i),
        decode_spec(encode_spec(i, c2), c2) == Ok::<Instruction, DecodeError>(i),
{
    lemma_round_trip(i, c1);
    lemma_round_trip(i, c2);
}

/// Invalid opcode: a chunk whose opcode slot holds a byte that is no opcode
/// of the table decodes to `InvalidOpcode`, and disassembling it fails at
/// its first chunk.
pub proof fn lemma_invalid_opcode(bytes: Seq<u8>, c: Constants)
    requires
        c.byte_order.wf(),
        bytes.len() == 3,
        bytes[c.byte_order.op as int] != c.opcode.IMM,
        bytes[c.byte_order.op as int] != c.opcode.ADD,
        bytes[c.byte_order.op as int] != c.opcode.STK,
        bytes[c.byte_order.op as int] != c.opcode.STM,
        bytes[c.byte_order.op as int] != c.opcode.LDM,
        bytes[c.byte_order.op as int] != c.opcode.CMP,
        bytes[c.byte_order.op as int] != c.opcode.JMP,
        bytes[c.byte_order.op as int] != c.opcode.SYS,
    ensures
        decode_spec(bytes, c) == Err::<Instruction, DecodeError>(
            DecodeError::InvalidOpcode(bytes[c.byte_order.op as int]),
        ),
        disassemble_spec(bytes, c) == Err::<Seq<Instruction>, DisassembleError>(
            DisassembleError::InvalidChunk(
                0,
                DecodeError::InvalidOpcode(bytes[c.byte_order.op as int]),
            ),
        ),
{
    assert(chunk(bytes, 0) =~= bytes);
    assert(decode_chunks(bytes, c, 0) == Ok::<Seq<Instruction>, DisassembleError>(seq![]));
    assert(bytes.len() / 3 == 1);
}

proof fn lemma_chunk_of_concat(a: Seq<u8>, e: Seq<u8>, k: int)
    requires
        a.len() % 3 == 0,
        e.len() == 3,
        0 <= k <= a.len() / 3,
    ensures
        chunk(a + e, k) == if k < a.len() / 3 {
            chunk(a, k)
        } else {
            e
        },
{
    if k < a.len() / 3 {
        assert(chunk(a + e, k) =~= chunk(a, k));
    } else {
        assert(chunk(a + e, k) =~= e);
    }
}

#[verifier::rlimit(40)]
proof fn lemma_assemble_chunks(v: Seq<Instruction>, c: Constants)
    ensures
        assemble_spec(v, c).len() == 3 * v.len(),
        forall|k: int|
            0 <= k < v.len() ==> #[trigger] chunk(assemble_spec(v, c), k) == encode_spec(v[k], c),
    decreases v.len(),
{
    if v.len() > 0 {
        let p = v.drop_last();
        lemma_assemble_chunks(p, c);
        let a = assemble_spec(p, c);
        let e = encode_spec(v.last(), c);
        let s = assemble_spec(v, c);
        assert(s == a + e);
        assert(e.len() == 3);
        assert(a.len() / 3 == p.len());
        assert forall|k: int| 0 <= k < v.len() implies #[trigger] chunk(s, k) == encode_spec(
            v[k],
            c,
        ) by {
            lemma_chunk_of_concat(a, e, k);
            if k < p.len() {
                assert(v[k] == p[k]);
            }
        }
    }
}

proof fn lemma_decode_assembled(v: Seq<Instruction>, c: Constants, n: nat)
    requires
        c.wf(),
        n <= v.len(),
    ensures
        decode_chunks(assemble_spec(v, c), c, n) == Ok::<Seq<Instruction>, DisassembleError>(
            v.take(n as int),
        ),
    decreases n,
{
    lemma_assemble_chunks(v, c);
    if n > 0 {
        lemma_decode_assembled(v, c, (n - 1) as nat);
        lemma_round_trip(v[n - 1], c);
        assert(chunk(assemble_spec(v, c), n - 1) == encode_spec(v[n - 1], c));
        assert(v.take(n - 1).push(v[n - 1]) =~= v.take(n as int));
    } else {
        assert(v.take(0) =~= Seq::<Instruction>::empty());
    }
}

/// Disassembling an assembled program under a valid table gives the
/// program back, instruction for instruction.
pub proof fn lemma_disassemble_assemble(v: Seq<Instruction>, c: Constants)
    requires
        c.wf(),
    ensures
        disassemble_spec(assemble_spec(v, c), c) == Ok::<Seq<Instruction>, DisassembleError>(v),
{
    lemma_assemble_chunks(v, c);
    let n = v.len();
    assert((3 * n) % 3 == 0 && (3 * n) / 3 == n) by (nonlinear_arith);
    lemma_decode_assembled(v, c, n);
    assert(v.take(n as int) =~= v);
}

} // verus!
