//! Comparison flags.

use vstd::prelude::*;
use crate::constants::{Constants, Decodable, DecodeError, Encodable};

verus! {

/// Comparison flags.
///
/// Used to represent both the results of a comparison (CMP) operation and the
/// conditions necessary of the previous comparison—as stored in the "f"
/// register—for a jump (JMP) operation.
#[derive(Clone, Copy, Debug, PartialEq, Eq, Structural)]
pub struct Flags {
    /// Strictly less than.
    pub less_than: bool,
    /// Strictly greater than.
    pub greater_than: bool,
    /// Equals.
    pub equal: bool,
    /// Does not equal.
    pub not_equal: bool,
    /// "Zero flag" activated when both values equal zero.
    pub zeroes: bool,
}

/// `v` when `b` holds, else no bit.
pub open spec fn bit_if(b: bool, v: u8) -> u8 {
    if b {
        v
    } else {
        0
    }
}

/// The byte of a flag set: the bitwise or of the bytes of its members.
pub open spec fn flags_byte(f: Flags, c: Constants) -> u8 {
    bit_if(f.less_than, c.flag.L) | bit_if(f.greater_than, c.flag.G) | bit_if(f.equal, c.flag.E)
        | bit_if(f.not_equal, c.flag.N) | bit_if(f.zeroes, c.flag.Z)
}

/// The flags whose bits overlap byte `v`, whatever other bits `v` holds.
pub open spec fn flags_in_byte(v: u8, c: Constants) -> Flags {
    Flags {
        less_than: v & c.flag.L != 0,
        greater_than: v & c.flag.G != 0,
        equal: v & c.flag.E != 0,
        not_equal: v & c.flag.N != 0,
        zeroes: v & c.flag.Z != 0,
    }
}

/// Decoding a flag set is strict: a byte with a bit that belongs to no flag
/// is rejected.
pub open spec fn flags_of_byte(v: u8, c: Constants) -> Result<Flags, DecodeError> {
    if v & c.flag.all() != v {
        Err(DecodeError::InvalidOperand(v))
    } else {
        Ok(flags_in_byte(v, c))
    }
}

impl Flags {
    /// Whether some flag is set in both `self` and `other`.
    pub open spec fn matches(self, other: Flags) -> bool {
        (self.less_than && other.less_than) || (self.greater_than && other.greater_than) || (
        self.equal && other.equal) || (self.not_equal && other.not_equal) || (self.zeroes
            && other.zeroes)
    }

    /// The empty flag set.
    pub open spec fn none() -> Flags {
        Flags { less_than: false, greater_than: false, equal: false, not_equal: false, zeroes: false }
    }

    /// The flags whose bits overlap `value`, whatever other bits it holds.
    pub fn within(value: u8, c: Constants) -> (r: Flags)
        ensures
            r == flags_in_byte(value, c),
    {
        Flags {
            less_than: value & c.flag.L != 0,
            greater_than: value & c.flag.G != 0,
            equal: value & c.flag.E != 0,
            not_equal: value & c.flag.N != 0,
            zeroes: value & c.flag.Z != 0,
        }
    }

    /// Checks if any of the "enabled" flags in `other` are also enabled in `self`.
    pub fn does_match(&self, other: &Flags) -> (r: bool)
        ensures
            r == self.matches(*other),
    {
        (self.less_than && other.less_than) || (self.greater_than && other.greater_than) || (
        self.equal && other.equal) || (self.not_equal && other.not_equal) || (self.zeroes
            && other.zeroes)
    }
}

impl Default for Flags {
    fn default() -> (r: Flags)
        ensures
            r == Flags::none(),
    {
        Flags { less_than: false, greater_than: false, equal: false, not_equal: false, zeroes: false }
    }
}

impl Encodable for Flags {
    open spec fn encoding(&self, c: Constants) -> u8 {
        flags_byte(*self, c)
    }

    fn encode(&self, c: Constants) -> (r: u8) {
        let l: u8 = if self.less_than { c.flag.L } else { 0 };
        let g: u8 = if self.greater_than { c.flag.G } else { 0 };
        let e: u8 = if self.equal { c.flag.E } else { 0 };
        let n: u8 = if self.not_equal { c.flag.N } else { 0 };
        let z: u8 = if self.zeroes { c.flag.Z } else { 0 };
        l | g | e | n | z
    }
}

impl Decodable for Flags {
    open spec fn decodes_to(value: u8, c: Constants, r: Result<Flags, DecodeError>) -> bool {
        r == flags_of_byte(value, c)
    }

    fn decode(value: u8, c: Constants) -> (r: Result<Flags, DecodeError>) {
        let all = c.flag.L | c.flag.G | c.flag.E | c.flag.N | c.flag.Z;
        if value & all != value {
            return Err(DecodeError::InvalidOperand(value));
        }
        Ok(
            Flags {
                less_than: value & c.flag.L != 0,
                greater_than: value & c.flag.G != 0,
                equal: value & c.flag.E != 0,
                not_equal: value & c.flag.N != 0,
                zeroes: value & c.flag.Z != 0,
            },
        )
    }
}

proof fn lemma_or_of_disjoint_bits(l: u8, g: u8, e: u8, n: u8, z: u8, xl: u8, xg: u8, xe: u8, xn: u8, xz: u8)
    by (bit_vector)
    requires
        l != 0 && g != 0 && e != 0 && n != 0 && z != 0,
        l & g == 0 && l & e == 0 && l & n == 0 && l & z == 0,
        g & e == 0 && g & n == 0 && g & z == 0,
        e & n == 0 && e & z == 0,
        n & z == 0,
        xl == 0 || xl == l,
        xg == 0 || xg == g,
        xe == 0 || xe == e,
        xn == 0 || xn == n,
        xz == 0 || xz == z,
    ensures
        ((xl | xg | xe | xn | xz) & l != 0) == (xl == l),
        ((xl | xg | xe | xn | xz) & g != 0) == (xg == g),
        ((xl | xg | xe | xn | xz) & e != 0) == (xe == e),
        ((xl | xg | xe | xn | xz) & n != 0) == (xn == n),
        ((xl | xg | xe | xn | xz) & z != 0) == (xz == z),
        (xl | xg | xe | xn | xz) & (l | g | e | n | z) == (xl | xg | xe | xn | xz),
{
}

proof fn lemma_overlap_of_or(
    v: u8,
    l: u8,
    g: u8,
    e: u8,
    n: u8,
    z: u8,
    bl: bool,
    bg: bool,
    be: bool,
    bn: bool,
    bz: bool,
    xl: u8,
    xg: u8,
    xe: u8,
    xn: u8,
    xz: u8,
)
    by (bit_vector)
    requires
        xl == (if bl { l } else { 0 }),
        xg == (if bg { g } else { 0 }),
        xe == (if be { e } else { 0 }),
        xn == (if bn { n } else { 0 }),
        xz == (if bz { z } else { 0 }),
    ensures
        (v & (xl | xg | xe | xn | xz) != 0) == ((bl && v & l != 0) || (bg && v & g != 0) || (be
            && v & e != 0) || (bn && v & n != 0) || (bz && v & z != 0)),
{
}

/// Under a valid flag table, a flag set is decoded back from its byte, and
/// each flag's bit is set in that byte exactly when the flag is in the set.
pub proof fn lemma_flags_round_trip(f: Flags, c: Constants)
    requires
        c.flag.wf(),
    ensures
        flags_of_byte(flags_byte(f, c), c) == Ok::<Flags, DecodeError>(f),
        flags_in_byte(flags_byte(f, c), c) == f,
{
    lemma_or_of_disjoint_bits(
        c.flag.L,
        c.flag.G,
        c.flag.E,
        c.flag.N,
        c.flag.Z,
        bit_if(f.less_than, c.flag.L),
        bit_if(f.greater_than, c.flag.G),
        bit_if(f.equal, c.flag.E),
        bit_if(f.not_equal, c.flag.N),
        bit_if(f.zeroes, c.flag.Z),
    );
}

/// A byte `v` shares a bit with the byte of `cond` exactly when some flag of
/// `cond` has its bit set in `v`.
pub proof fn lemma_jump_condition(v: u8, cond: Flags, c: Constants)
    ensures
        (v & flags_byte(cond, c) != 0) == flags_in_byte(v, c).matches(cond),
{
    lemma_overlap_of_or(
        v,
        c.flag.L,
        c.flag.G,
        c.flag.E,
        c.flag.N,
        c.flag.Z,
        cond.less_than,
        cond.greater_than,
        cond.equal,
        cond.not_equal,
        cond.zeroes,
        bit_if(cond.less_than, c.flag.L),
        bit_if(cond.greater_than, c.flag.G),
        bit_if(cond.equal, c.flag.E),
        bit_if(cond.not_equal, c.flag.N),
        bit_if(cond.zeroes, c.flag.Z),
    );
}

} // verus!
