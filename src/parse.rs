//! Parses Yan85 assembly text into instructions.
//!
//! The text is read one line at a time; lines end at `\n`. A line is split
//! into words at spaces, tabs and carriage returns. A line without words is
//! skipped; any other line holds exactly one instruction:
//!
//! ```text
//! IMM <reg> = <int>
//! ADD <reg> <reg>
//! STK <reg|NONE> <reg|NONE>
//! STM *<reg> = <reg>
//! LDM <reg> = *<reg>
//! CMP <reg> <reg>
//! JMP <flag letters> <reg>
//! SYS <int> <reg>
//! ```
//!
//! Registers are `a b c d s i f`, flag letters `L G E N Z`, and an integer is
//! decimal or `0x`-prefixed hexadecimal and at most 255.

use vstd::prelude::*;
use vstd::string::StringSliceAdditionalSpecFns;
use vstd::utf8::encode_utf8;
use crate::flags::Flags;
use crate::instruction::Instruction;
use crate::register::Register;

verus! {

/// Assembly text that does not parse, with the 1-based number of the
/// offending line.
#[derive(Clone, Copy, Debug, PartialEq, Eq, Structural)]
pub struct ParseError {
    /// The line that does not parse.
    pub line: usize,
}

/// Spaces, tabs and carriage returns separate words.
pub open spec fn is_space(b: u8) -> bool {
    b == 0x20 || b == 0x09 || b == 0x0d
}

/// The number of bytes before the first separator of `s`.
pub open spec fn word_len(s: Seq<u8>) -> nat
    decreases s.len(),
{
    if s.len() == 0 || is_space(s[0]) {
        0
    } else {
        1 + word_len(s.drop_first())
    }
}

/// The words of `s`, in order.
pub open spec fn words(s: Seq<u8>) -> Seq<Seq<u8>>
    decreases s.len(),
    via words_decreases
{
    if s.len() == 0 {
        seq![]
    } else if is_space(s[0]) {
        words(s.drop_first())
    } else {
        seq![s.take(word_len(s) as int)] + words(s.skip(word_len(s) as int))
    }
}

/// The number of bytes before the first line end of `s`.
pub open spec fn line_len(s: Seq<u8>) -> nat
    decreases s.len(),
{
    if s.len() == 0 || s[0] == 0x0a {
        0
    } else {
        1 + line_len(s.drop_first())
    }
}

proof fn lemma_word_len_bound(s: Seq<u8>)
    ensures
        word_len(s) <= s.len(),
        forall|k: int| 0 <= k < word_len(s) ==> !is_space(#[trigger] s[k]),
        word_len(s) < s.len() ==> is_space(s[word_len(s) as int]),
    decreases s.len(),
{
    if s.len() > 0 && !is_space(s[0]) {
        lemma_word_len_bound(s.drop_first());
        assert forall|k: int| 0 <= k < word_len(s) implies !is_space(#[trigger] s[k]) by {
            if k > 0 {
                assert(s[k] == s.drop_first()[k - 1]);
            }
        }
    }
}

#[via_fn]
proof fn words_decreases(s: Seq<u8>) {
    lemma_word_len_bound(s);
    if s.len() > 0 && !is_space(s[0]) {
        assert(word_len(s) >= 1);
    }
}

proof fn lemma_line_len_bound(s: Seq<u8>)
    ensures
        line_len(s) <= s.len(),
        line_len(s) < s.len() ==> s[line_len(s) as int] == 0x0a,
    decreases s.len(),
{
    if s.len() > 0 && s[0] != 0x0a {
        lemma_line_len_bound(s.drop_first());
    }
}

/// Index of the first separator at or after `i` in `s[..hi]`, or `hi`.
fn word_end(s: &[u8], i: usize, hi: usize) -> (j: usize)
    requires
        i <= hi <= s@.len(),
    ensures
        i <= j <= hi,
        j == i + word_len(s@.subrange(i as int, hi as int)),
{
    let mut j = i;
    while j < hi && !(s[j] == 0x20 || s[j] == 0x09 || s[j] == 0x0d)
        invariant
            i <= j <= hi <= s@.len(),
            word_len(s@.subrange(i as int, hi as int)) == (j - i) + word_len(
                s@.subrange(j as int, hi as int),
            ),
        decreases hi - j,
    {
        assert(s@.subrange(j as int, hi as int).drop_first() =~= s@.subrange(
            j as int + 1,
            hi as int,
        ));
        j = j + 1;
    }
    j
}

/// Index of the first line end at or after `i` in `s`, or its length.
fn line_end(s: &[u8], i: usize) -> (j: usize)
    requires
        i <= s@.len(),
    ensures
        i <= j <= s@.len(),
        j == i + line_len(s@.subrange(i as int, s@.len() as int)),
{
    let mut j = i;
    while j < s.len() && s[j] != 0x0a
        invariant
            i <= j <= s@.len(),
            line_len(s@.subrange(i as int, s@.len() as int)) == (j - i) + line_len(
                s@.subrange(j as int, s@.len() as int),
            ),
        decreases s@.len() - j,
    {
        assert(s@.subrange(j as int, s@.len() as int).drop_first() =~= s@.subrange(
            j as int + 1,
            s@.len() as int,
        ));
        j = j + 1;
    }
    j
}

/// The words of `s` that the index pairs `spans` delimit.
pub open spec fn spans_words(s: Seq<u8>, spans: Seq<(usize, usize)>) -> Seq<Seq<u8>> {
    Seq::new(spans.len(), |k: int| s.subrange(spans[k].0 as int, spans[k].1 as int))
}

/// Splits `s[lo..hi]` into words, as index pairs into `s`.
fn split_words(s: &[u8], lo: usize, hi: usize) -> (r: Vec<(usize, usize)>)
    requires
        lo <= hi <= s@.len(),
    ensures
        spans_words(s@, r@) == words(s@.subrange(lo as int, hi as int)),
        forall|k: int| 0 <= k < r@.len() ==> lo <= #[trigger] r@[k].0 <= r@[k].1 <= hi,
{
    let mut spans: Vec<(usize, usize)> = Vec::new();
    let mut i = lo;
    while i < hi
        invariant
            lo <= i <= hi <= s@.len(),
            words(s@.subrange(lo as int, hi as int)) == spans_words(s@, spans@) + words(
                s@.subrange(i as int, hi as int),
            ),
            forall|k: int| 0 <= k < spans@.len() ==> lo <= #[trigger] spans@[k].0 <= spans@[k].1 <= hi,
        decreases hi - i,
    {
        let rest = Ghost(s@.subrange(i as int, hi as int));
        if s[i] == 0x20 || s[i] == 0x09 || s[i] == 0x0d {
            assert(rest@.drop_first() =~= s@.subrange(i as int + 1, hi as int));
            i = i + 1;
        } else {
            let j = word_end(s, i, hi);
            assert(rest@.take(word_len(rest@) as int) =~= s@.subrange(i as int, j as int));
            assert(rest@.skip(word_len(rest@) as int) =~= s@.subrange(j as int, hi as int));
            let ghost before = spans@;
            spans.push((i, j));
            assert(spans_words(s@, spans@) =~= spans_words(s@, before) + seq![
                s@.subrange(i as int, j as int),
            ]);
            assert(spans_words(s@, before) + seq![s@.subrange(i as int, j as int)] + words(
                s@.subrange(j as int, hi as int),
            ) =~= spans_words(s@, before) + (seq![s@.subrange(i as int, j as int)] + words(
                s@.subrange(j as int, hi as int),
            )));
            i = j;
        }
    }
    assert(words(s@.subrange(i as int, hi as int)) =~= Seq::<Seq<u8>>::empty());
    assert(spans_words(s@, spans@) + Seq::<Seq<u8>>::empty() =~= spans_words(s@, spans@));
    spans
}

/// The register that a lowercase letter names.
pub open spec fn letter_register(b: u8) -> Option<Register> {
    if b == ('a' as u8) {
        Some(Register::A)
    } else if b == ('b' as u8) {
        Some(Register::B)
    } else if b == ('c' as u8) {
        Some(Register::C)
    } else if b == ('d' as u8) {
        Some(Register::D)
    } else if b == ('s' as u8) {
        Some(Register::S)
    } else if b == ('i' as u8) {
        Some(Register::I)
    } else if b == ('f' as u8) {
        Some(Register::F)
    } else {
        None
    }
}

/// A register word: one register letter.
pub open spec fn register_word(w: Seq<u8>) -> Option<Register> {
    if w.len() == 1 {
        letter_register(w[0])
    } else {
        None
    }
}

/// The word `NONE`.
pub open spec fn is_none_word(w: Seq<u8>) -> bool {
    w == seq![('N' as u8), ('O' as u8), ('N' as u8), ('E' as u8)]
}

/// An optional register word: a register letter or `NONE`.
pub open spec fn opt_register_word(w: Seq<u8>) -> Option<Option<Register>> {
    if is_none_word(w) {
        Some(None)
    } else {
        match register_word(w) {
            Some(r) => Some(Some(r)),
            None => None,
        }
    }
}

/// A dereferenced register word: `*` and a register letter.
pub open spec fn deref_word(w: Seq<u8>) -> Option<Register> {
    if w.len() == 2 && w[0] == ('*' as u8) {
        letter_register(w[1])
    } else {
        None
    }
}

/// A decimal digit.
pub open spec fn is_dec_digit(b: u8) -> bool {
    ('0' as u8) <= b <= ('9' as u8)
}

/// A hexadecimal digit, in either case.
pub open spec fn is_hex_digit(b: u8) -> bool {
    is_dec_digit(b) || (('a' as u8) <= b <= ('f' as u8)) || (('A' as u8) <= b <= ('F' as u8))
}

/// The value of a hexadecimal digit.
pub open spec fn hex_digit_value(b: u8) -> int {
    if is_dec_digit(b) {
        b - ('0' as u8)
    } else if ('a' as u8) <= b <= ('f' as u8) {
        b - ('a' as u8) + 10
    } else {
        b - ('A' as u8) + 10
    }
}

/// The value of a string of decimal digits.
pub open spec fn dec_value(w: Seq<u8>) -> int
    decreases w.len(),
{
    if w.len() == 0 {
        0
    } else {
        dec_value(w.drop_last()) * 10 + (w.last() - ('0' as u8))
    }
}

/// The value of a string of hexadecimal digits.
pub open spec fn hex_value(w: Seq<u8>) -> int
    decreases w.len(),
{
    if w.len() == 0 {
        0
    } else {
        hex_value(w.drop_last()) * 16 + hex_digit_value(w.last())
    }
}

/// An integer word: `0x` and hexadecimal digits, or decimal digits, whose
/// value is at most 255.
pub open spec fn int_word(w: Seq<u8>) -> Option<u8> {
    if w.len() > 2 && w[0] == ('0' as u8) && w[1] == ('x' as u8) {
        let h = w.skip(2);
        if (forall|k: int| 0 <= k < h.len() ==> is_hex_digit(#[trigger] h[k])) && hex_value(h)
            <= 255 {
            Some(hex_value(h) as u8)
        } else {
            None
        }
    } else if w.len() >= 1 && (forall|k: int| 0 <= k < w.len() ==> is_dec_digit(#[trigger] w[k]))
        && dec_value(w) <= 255 {
        Some(dec_value(w) as u8)
    } else {
        None
    }
}

/// A flag letter.
pub open spec fn is_flag_letter(b: u8) -> bool {
    b == ('L' as u8) || b == ('G' as u8) || b == ('E' as u8) || b == ('N' as u8) || b == ('Z' as u8)
}

/// A word of flag letters, repeats allowed, and the flags it names.
pub open spec fn flags_word(w: Seq<u8>) -> Option<Flags> {
    if forall|k: int| 0 <= k < w.len() ==> is_flag_letter(#[trigger] w[k]) {
        Some(
            Flags {
                less_than: w.contains(('L' as u8)),
                greater_than: w.contains(('G' as u8)),
                equal: w.contains(('E' as u8)),
                not_equal: w.contains(('N' as u8)),
                zeroes: w.contains(('Z' as u8)),
            },
        )
    } else {
        None
    }
}

/// Whether `w` is the three-letter word `x y z`.
pub open spec fn is_word3(w: Seq<u8>, x: u8, y: u8, z: u8) -> bool {
    w == seq![x, y, z]
}

/// The instruction that the words of a line spell, if any.
pub open spec fn instruction_of(w: Seq<Seq<u8>>) -> Option<Instruction> {
    if w.len() == 0 {
        None
    } else if is_word3(w[0], ('I' as u8), ('M' as u8), ('M' as u8)) {
        if w.len() == 4 && w[2] == seq![('=' as u8)] {
            match (register_word(w[1]), int_word(w[3])) {
                (Some(r), Some(v)) => Some(Instruction::IMM(r, v)),
                _ => None,
            }
        } else {
            None
        }
    } else if is_word3(w[0], ('A' as u8), ('D' as u8), ('D' as u8)) {
        if w.len() == 3 {
            match (register_word(w[1]), register_word(w[2])) {
                (Some(a), Some(b)) => Some(Instruction::ADD(a, b)),
                _ => None,
            }
        } else {
            None
        }
    } else if is_word3(w[0], ('S' as u8), ('T' as u8), ('K' as u8)) {
        if w.len() == 3 {
            match (opt_register_word(w[1]), opt_register_word(w[2])) {
                (Some(a), Some(b)) => Some(Instruction::STK(a, b)),
                _ => None,
            }
        } else {
            None
        }
    } else if is_word3(w[0], ('S' as u8), ('T' as u8), ('M' as u8)) {
        if w.len() == 4 && w[2] == seq![('=' as u8)] {
            match (deref_word(w[1]), register_word(w[3])) {
                (Some(a), Some(b)) => Some(Instruction::STM(a, b)),
                _ => None,
            }
        } else {
            None
        }
    } else if is_word3(w[0], ('L' as u8), ('D' as u8), ('M' as u8)) {
        if w.len() == 4 && w[2] == seq![('=' as u8)] {
            match (register_word(w[1]), deref_word(w[3])) {
                (Some(a), Some(b)) => Some(Instruction::LDM(a, b)),
                _ => None,
            }
        } else {
            None
        }
    } else if is_word3(w[0], ('C' as u8), ('M' as u8), ('P' as u8)) {
        if w.len() == 3 {
            match (register_word(w[1]), register_word(w[2])) {
                (Some(a), Some(b)) => Some(Instruction::CMP(a, b)),
                _ => None,
            }
        } else {
            None
        }
    } else if is_word3(w[0], ('J' as u8), ('M' as u8), ('P' as u8)) {
        if w.len() == 3 {
            match (flags_word(w[1]), register_word(w[2])) {
                (Some(f), Some(b)) => Some(Instruction::JMP(f, b)),
                _ => None,
            }
        } else {
            None
        }
    } else if is_word3(w[0], ('S' as u8), ('Y' as u8), ('S' as u8)) {
        if w.len() == 3 {
            match (int_word(w[1]), register_word(w[2])) {
                (Some(v), Some(b)) => Some(Instruction::SYS(v, Some(b))),
                _ => None,
            }
        } else {
            None
        }
    } else {
        None
    }
}

proof fn lemma_dec_monotone(w: Seq<u8>, m: int)
    requires
        0 <= m <= w.len(),
        forall|k: int| 0 <= k < w.len() ==> is_dec_digit(#[trigger] w[k]),
    ensures
        dec_value(w.take(m)) <= dec_value(w),
        dec_value(w) >= 0,
    decreases w.len(),
{
    if w.len() > 0 {
        let p = w.drop_last();
        assert forall|k: int| 0 <= k < p.len() implies is_dec_digit(#[trigger] p[k]) by {
            assert(p[k] == w[k]);
        }
        if m < w.len() {
            lemma_dec_monotone(p, m);
            assert(p.take(m) =~= w.take(m));
        } else {
            lemma_dec_monotone(p, 0);
            assert(w.take(m) =~= w);
        }
    }
}

proof fn lemma_hex_monotone(w: Seq<u8>, m: int)
    requires
        0 <= m <= w.len(),
        forall|k: int| 0 <= k < w.len() ==> is_hex_digit(#[trigger] w[k]),
    ensures
        hex_value(w.take(m)) <= hex_value(w),
        hex_value(w) >= 0,
    decreases w.len(),
{
    if w.len() > 0 {
        let p = w.drop_last();
        assert forall|k: int| 0 <= k < p.len() implies is_hex_digit(#[trigger] p[k]) by {
            assert(p[k] == w[k]);
        }
        if m < w.len() {
            lemma_hex_monotone(p, m);
            assert(p.take(m) =~= w.take(m));
        } else {
            lemma_hex_monotone(p, 0);
            assert(w.take(m) =~= w);
        }
    }
}

proof fn lemma_contains_push(w: Seq<u8>, b: u8, x: u8)
    ensures
        w.push(b).contains(x) == (w.contains(x) || b == x),
{
    if w.contains(x) {
        let i = choose|i: int| 0 <= i < w.len() && w[i] == x;
        assert(w.push(b)[i] == x);
    }
    if b == x {
        assert(w.push(b)[w.len() as int] == x);
    }
    if w.push(b).contains(x) {
        let i = choose|i: int| 0 <= i < w.push(b).len() && w.push(b)[i] == x;
        if i < w.len() {
            assert(w[i] == x);
        }
    }
}

fn letter_register_of(b: u8) -> (r: Option<Register>)
    ensures
        r == letter_register(b),
{
    if b == 'a' as u8 {
        Some(Register::A)
    } else if b == 'b' as u8 {
        Some(Register::B)
    } else if b == 'c' as u8 {
        Some(Register::C)
    } else if b == 'd' as u8 {
        Some(Register::D)
    } else if b == 's' as u8 {
        Some(Register::S)
    } else if b == 'i' as u8 {
        Some(Register::I)
    } else if b == 'f' as u8 {
        Some(Register::F)
    } else {
        None
    }
}

fn register_at(s: &[u8], a: usize, b: usize) -> (r: Option<Register>)
    requires
        a <= b <= s@.len(),
    ensures
        r == register_word(s@.subrange(a as int, b as int)),
{
    if b - a == 1 {
        letter_register_of(s[a])
    } else {
        None
    }
}

fn opt_register_at(s: &[u8], a: usize, b: usize) -> (r: Option<Option<Register>>)
    requires
        a <= b <= s@.len(),
    ensures
        r == opt_register_word(s@.subrange(a as int, b as int)),
{
    let w = Ghost(s@.subrange(a as int, b as int));
    let none = b - a == 4 && s[a] == 'N' as u8 && s[a + 1] == 'O' as u8 && s[a + 2] == 'N' as u8
        && s[a + 3] == 'E' as u8;
    proof {
        let n = seq!['N' as u8, 'O' as u8, 'N' as u8, 'E' as u8];
        if none {
            assert(w@ =~= n);
        } else if w@ == n {
            assert(w@[0] == n[0] && w@[1] == n[1] && w@[2] == n[2] && w@[3] == n[3]);
        }
    }
    if none {
        Some(None)
    } else {
        match register_at(s, a, b) {
            Some(r) => Some(Some(r)),
            None => None,
        }
    }
}

fn deref_at(s: &[u8], a: usize, b: usize) -> (r: Option<Register>)
    requires
        a <= b <= s@.len(),
    ensures
        r == deref_word(s@.subrange(a as int, b as int)),
{
    if b - a == 2 && s[a] == '*' as u8 {
        letter_register_of(s[a + 1])
    } else {
        None
    }
}

fn word3_at(s: &[u8], a: usize, b: usize, x: u8, y: u8, z: u8) -> (r: bool)
    requires
        a <= b <= s@.len(),
    ensures
        r == is_word3(s@.subrange(a as int, b as int), x, y, z),
{
    let w = Ghost(s@.subrange(a as int, b as int));
    let r = b - a == 3 && s[a] == x && s[a + 1] == y && s[a + 2] == z;
    proof {
        let n = seq![x, y, z];
        assert(n.len() == 3 && n[0] == x && n[1] == y && n[2] == z);
        if r {
            assert(w@[0] == s@[a as int] && w@[1] == s@[a + 1] && w@[2] == s@[a + 2]);
            assert(w@ =~= n);
        } else if w@ == n {
            assert(w@[0] == s@[a as int] && w@[1] == s@[a + 1] && w@[2] == s@[a + 2]);
        }
    }
    r
}

fn is_equals_at(s: &[u8], a: usize, b: usize) -> (r: bool)
    requires
        a <= b <= s@.len(),
    ensures
        r == (s@.subrange(a as int, b as int) == seq!['=' as u8]),
{
    let w = Ghost(s@.subrange(a as int, b as int));
    let r = b - a == 1 && s[a] == '=' as u8;
    proof {
        let n = seq!['=' as u8];
        assert(n.len() == 1 && n[0] == '=' as u8);
        if r {
            assert(w@[0] == s@[a as int]);
            assert(w@ =~= n);
        } else if w@ == n {
            assert(w@[0] == s@[a as int]);
        }
    }
    r
}

fn decimal_at(s: &[u8], a: usize, b: usize) -> (r: Option<u8>)
    requires
        a <= b <= s@.len(),
    ensures
        ({
            let w = s@.subrange(a as int, b as int);
            r == if (forall|k: int| 0 <= k < w.len() ==> is_dec_digit(#[trigger] w[k]))
                && dec_value(w) <= 255 {
                Some(dec_value(w) as u8)
            } else {
                None::<u8>
            }
        }),
{
    let ghost w = s@.subrange(a as int, b as int);
    let mut v: u32 = 0;
    let mut k: usize = a;
    while k < b
        invariant
            a <= k <= b <= s@.len(),
            w == s@.subrange(a as int, b as int),
            v <= 255,
            forall|j: int| 0 <= j < k - a ==> is_dec_digit(#[trigger] w[j]),
            v == dec_value(w.take(k - a)),
        decreases b - k,
    {
        let d = s[k];
        if !(d >= '0' as u8 && d <= '9' as u8) {
            assert(!is_dec_digit(w[k - a]));
            return None;
        }
        assert(w.take(k - a + 1).drop_last() =~= w.take(k - a));
        v = v * 10 + (d - '0' as u8) as u32;
        k = k + 1;
        if v > 255 {
            proof {
                if forall|j: int| 0 <= j < w.len() ==> is_dec_digit(#[trigger] w[j]) {
                    lemma_dec_monotone(w, k - a);
                }
            }
            return None;
        }
    }
    assert(w.take(k - a) =~= w);
    Some(v as u8)
}

fn hex_digit_of(d: u8) -> (r: Option<u8>)
    ensures
        is_hex_digit(d) ==> r == Some(hex_digit_value(d) as u8),
        !is_hex_digit(d) ==> r is None,
{
    if d >= '0' as u8 && d <= '9' as u8 {
        Some(d - '0' as u8)
    } else if d >= 'a' as u8 && d <= 'f' as u8 {
        Some(d - 'a' as u8 + 10)
    } else if d >= 'A' as u8 && d <= 'F' as u8 {
        Some(d - 'A' as u8 + 10)
    } else {
        None
    }
}

fn hexadecimal_at(s: &[u8], a: usize, b: usize) -> (r: Option<u8>)
    requires
        a <= b <= s@.len(),
    ensures
        ({
            let w = s@.subrange(a as int, b as int);
            r == if (forall|k: int| 0 <= k < w.len() ==> is_hex_digit(#[trigger] w[k]))
                && hex_value(w) <= 255 {
                Some(hex_value(w) as u8)
            } else {
                None::<u8>
            }
        }),
{
    let ghost w = s@.subrange(a as int, b as int);
    let mut v: u32 = 0;
    let mut k: usize = a;
    while k < b
        invariant
            a <= k <= b <= s@.len(),
            w == s@.subrange(a as int, b as int),
            v <= 255,
            forall|j: int| 0 <= j < k - a ==> is_hex_digit(#[trigger] w[j]),
            v == hex_value(w.take(k - a)),
        decreases b - k,
    {
        let d = match hex_digit_of(s[k]) {
            Some(d) => d,
            None => {
                assert(!is_hex_digit(w[k - a]));
                return None;
            },
        };
        assert(w.take(k - a + 1).drop_last() =~= w.take(k - a));
        v = v * 16 + d as u32;
        k = k + 1;
        if v > 255 {
            proof {
                if forall|j: int| 0 <= j < w.len() ==> is_hex_digit(#[trigger] w[j]) {
                    lemma_hex_monotone(w, k - a);
                }
            }
            return None;
        }
    }
    assert(w.take(k - a) =~= w);
    Some(v as u8)
}

fn int_at(s: &[u8], a: usize, b: usize) -> (r: Option<u8>)
    requires
        a <= b <= s@.len(),
    ensures
        r == int_word(s@.subrange(a as int, b as int)),
{
    let ghost w = s@.subrange(a as int, b as int);
    if b - a > 2 && s[a] == '0' as u8 && s[a + 1] == 'x' as u8 {
        assert(w.skip(2) =~= s@.subrange(a + 2, b as int));
        hexadecimal_at(s, a + 2, b)
    } else if b - a >= 1 {
        decimal_at(s, a, b)
    } else {
        None
    }
}

fn flags_at(s: &[u8], a: usize, b: usize) -> (r: Option<Flags>)
    requires
        a <= b <= s@.len(),
    ensures
        r == flags_word(s@.subrange(a as int, b as int)),
{
    let ghost w = s@.subrange(a as int, b as int);
    let mut flags = Flags::default();
    let mut k: usize = a;
    while k < b
        invariant
            a <= k <= b <= s@.len(),
            w == s@.subrange(a as int, b as int),
            forall|j: int| 0 <= j < k - a ==> is_flag_letter(#[trigger] w[j]),
            flags.less_than == w.take(k - a).contains('L' as u8),
            flags.greater_than == w.take(k - a).contains('G' as u8),
            flags.equal == w.take(k - a).contains('E' as u8),
            flags.not_equal == w.take(k - a).contains('N' as u8),
            flags.zeroes == w.take(k - a).contains('Z' as u8),
        decreases b - k,
    {
        let c = s[k];
        if c == 'L' as u8 {
            flags.less_than = true;
        } else if c == 'G' as u8 {
            flags.greater_than = true;
        } else if c == 'E' as u8 {
            flags.equal = true;
        } else if c == 'N' as u8 {
            flags.not_equal = true;
        } else if c == 'Z' as u8 {
            flags.zeroes = true;
        } else {
            assert(!is_flag_letter(w[k - a]));
            return None;
        }
        proof {
            let t = w.take(k - a);
            assert(w.take(k - a + 1) =~= t.push(c));
            lemma_contains_push(t, c, 'L' as u8);
            lemma_contains_push(t, c, 'G' as u8);
            lemma_contains_push(t, c, 'E' as u8);
            lemma_contains_push(t, c, 'N' as u8);
            lemma_contains_push(t, c, 'Z' as u8);
        }
        k = k + 1;
    }
    assert(w.take(k - a) =~= w);
    Some(flags)
}

/// What one line holds: `Some(None)` for a line without words,
/// `Some(Some(i))` for an instruction, `None` for a line that does not parse.
pub open spec fn line_result(l: Seq<u8>) -> Option<Option<Instruction>> {
    let w = words(l);
    if w.len() == 0 {
        Some(None)
    } else {
        match instruction_of(w) {
            Some(i) => Some(Some(i)),
            None => None,
        }
    }
}

/// The text after the first line of `s` and its line end.
pub open spec fn after_line(s: Seq<u8>) -> Seq<u8> {
    if line_len(s) < s.len() {
        s.skip(line_len(s) + 1 as int)
    } else {
        seq![]
    }
}

/// The instructions of the text `s`, whose first line is line number
/// `line`; or the first line that does not parse.
pub open spec fn parse_text(s: Seq<u8>, line: nat) -> Result<Seq<Instruction>, ParseError>
    decreases s.len(),
    via parse_text_decreases
{
    if s.len() == 0 {
        Ok(seq![])
    } else {
        match line_result(s.take(line_len(s) as int)) {
            None => Err(ParseError { line: line as usize }),
            Some(None) => parse_text(after_line(s), line + 1),
            Some(Some(i)) => match parse_text(after_line(s), line + 1) {
                Ok(v) => Ok(seq![i] + v),
                Err(e) => Err(e),
            },
        }
    }
}

#[via_fn]
proof fn parse_text_decreases(s: Seq<u8>, line: nat) {
    lemma_line_len_bound(s);
}

/// Whether `r` is the executable form of the outcome `t`.
pub open spec fn same_parse(
    r: Result<Vec<Instruction>, ParseError>,
    t: Result<Seq<Instruction>, ParseError>,
) -> bool {
    match (r, t) {
        (Ok(v), Ok(u)) => v@ == u,
        (Err(e), Err(f)) => e == f,
        _ => false,
    }
}

/// `t` with the instructions `v` in front.
pub open spec fn prepend(v: Seq<Instruction>, t: Result<Seq<Instruction>, ParseError>) -> Result<
    Seq<Instruction>,
    ParseError,
> {
    match t {
        Ok(u) => Ok(v + u),
        Err(e) => Err(e),
    }
}

fn parse_words(s: &[u8], spans: &Vec<(usize, usize)>) -> (r: Option<Instruction>)
    requires
        forall|k: int| 0 <= k < spans@.len() ==> #[trigger] spans@[k].0 <= spans@[k].1 <= s@.len(),
    ensures
        r == instruction_of(spans_words(s@, spans@)),
{
    let ghost w = spans_words(s@, spans@);
    let n = spans.len();
    if n == 0 {
        return None;
    }
    let (a0, b0) = spans[0];
    if word3_at(s, a0, b0, 'I' as u8, 'M' as u8, 'M' as u8) {
        if n == 4 && is_equals_at(s, spans[2].0, spans[2].1) {
            match (register_at(s, spans[1].0, spans[1].1), int_at(s, spans[3].0, spans[3].1)) {
                (Some(r), Some(v)) => Some(Instruction::IMM(r, v)),
                _ => None,
            }
        } else {
            None
        }
    } else if word3_at(s, a0, b0, 'A' as u8, 'D' as u8, 'D' as u8) {
        if n == 3 {
            match (register_at(s, spans[1].0, spans[1].1), register_at(s, spans[2].0, spans[2].1)) {
                (Some(a), Some(b)) => Some(Instruction::ADD(a, b)),
                _ => None,
            }
        } else {
            None
        }
    } else if word3_at(s, a0, b0, 'S' as u8, 'T' as u8, 'K' as u8) {
        if n == 3 {
            match (
                opt_register_at(s, spans[1].0, spans[1].1),
                opt_register_at(s, spans[2].0, spans[2].1),
            ) {
                (Some(a), Some(b)) => Some(Instruction::STK(a, b)),
                _ => None,
            }
        } else {
            None
        }
    } else if word3_at(s, a0, b0, 'S' as u8, 'T' as u8, 'M' as u8) {
        if n == 4 && is_equals_at(s, spans[2].0, spans[2].1) {
            match (deref_at(s, spans[1].0, spans[1].1), register_at(s, spans[3].0, spans[3].1)) {
                (Some(a), Some(b)) => Some(Instruction::STM(a, b)),
                _ => None,
            }
        } else {
            None
        }
    } else if word3_at(s, a0, b0, 'L' as u8, 'D' as u8, 'M' as u8) {
        if n == 4 && is_equals_at(s, spans[2].0, spans[2].1) {
            match (register_at(s, spans[1].0, spans[1].1), deref_at(s, spans[3].0, spans[3].1)) {
                (Some(a), Some(b)) => Some(Instruction::LDM(a, b)),
                _ => None,
            }
        } else {
            None
        }
    } else if word3_at(s, a0, b0, 'C' as u8, 'M' as u8, 'P' as u8) {
        if n == 3 {
            match (register_at(s, spans[1].0, spans[1].1), register_at(s, spans[2].0, spans[2].1)) {
                (Some(a), Some(b)) => Some(Instruction::CMP(a, b)),
                _ => None,
            }
        } else {
            None
        }
    } else if word3_at(s, a0, b0, 'J' as u8, 'M' as u8, 'P' as u8) {
        if n == 3 {
            match (flags_at(s, spans[1].0, spans[1].1), register_at(s, spans[2].0, spans[2].1)) {
                (Some(f), Some(b)) => Some(Instruction::JMP(f, b)),
                _ => None,
            }
        } else {
            None
        }
    } else if word3_at(s, a0, b0, 'S' as u8, 'Y' as u8, 'S' as u8) {
        if n == 3 {
            match (int_at(s, spans[1].0, spans[1].1), register_at(s, spans[2].0, spans[2].1)) {
                (Some(v), Some(b)) => Some(Instruction::SYS(v, Some(b))),
                _ => None,
            }
        } else {
            None
        }
    } else {
        None
    }
}

/// Parses the line `s[lo..hi]`.
fn parse_line(s: &[u8], lo: usize, hi: usize) -> (r: Option<Option<Instruction>>)
    requires
        lo <= hi <= s@.len(),
    ensures
        r == line_result(s@.subrange(lo as int, hi as int)),
{
    let spans = split_words(s, lo, hi);
    if spans.len() == 0 {
        return Some(None);
    }
    match parse_words(s, &spans) {
        Some(i) => Some(Some(i)),
        None => None,
    }
}

/// Parses the bytes of assembly text, one instruction per line.
pub fn parse_bytes(s: &[u8]) -> (r: Result<Vec<Instruction>, ParseError>)
    ensures
        same_parse(r, parse_text(s@, 1)),
{
    let mut out: Vec<Instruction> = Vec::new();
    let mut pos: usize = 0;
    let mut line: u128 = 1;
    proof {
        assert(s@.skip(0) =~= s@);
        if parse_text(s@, 1) is Ok {
            assert(Seq::<Instruction>::empty() + parse_text(s@, 1)->Ok_0 =~= parse_text(s@, 1)->Ok_0);
        }
    }
    while pos < s.len()
        invariant
            pos <= s@.len(),
            1 <= line <= pos + 1,
            parse_text(s@, 1) == prepend(out@, parse_text(s@.skip(pos as int), line as nat)),
        decreases s@.len() - pos,
    {
        let ghost rest = s@.skip(pos as int);
        assert(rest =~= s@.subrange(pos as int, s@.len() as int));
        let e = line_end(s, pos);
        proof {
            lemma_line_len_bound(rest);
            assert(rest.take(line_len(rest) as int) =~= s@.subrange(pos as int, e as int));
            if e < s.len() {
                assert(after_line(rest) =~= s@.skip(e + 1));
            } else {
                assert(after_line(rest) =~= s@.skip(e as int));
            }
        }
        let result = parse_line(s, pos, e);
        let next = if e < s.len() {
            e + 1
        } else {
            e
        };
        match result {
            None => {
                return Err(ParseError { line: line as usize });
            },
            Some(None) => {},
            Some(Some(i)) => {
                let ghost before = out@;
                out.push(i);
                proof {
                    let t = parse_text(s@.skip(next as int), (line + 1) as nat);
                    if t is Ok {
                        assert(before + (seq![i] + t->Ok_0) =~= out@ + t->Ok_0);
                    }
                }
            },
        }
        pos = next;
        line = line + 1;
    }
    assert(s@.skip(pos as int) =~= Seq::<u8>::empty());
    assert(out@ + Seq::<Instruction>::empty() =~= out@);
    Ok(out)
}

/// Parses a file with Yan85 assembly instructions with one instruction per line.
pub fn parse_asm_file(source: String) -> (r: Result<Vec<Instruction>, ParseError>)
    ensures
        same_parse(r, parse_text(encode_utf8(source@), 1)),
{
    parse_bytes(source.as_str().as_bytes())
}

/// Parses the instruction on the first line of `source`; returns how many bytes
/// that line and its line end take, and the instruction.
pub fn parse_asm_instruction(source: &str) -> (r: Result<(usize, Instruction), ParseError>)
    ensures
        ({
            let s = source.spec_bytes();
            let n = line_len(s);
            match line_result(s.take(n as int)) {
                Some(Some(i)) => r == Ok::<(usize, Instruction), ParseError>(
                    (
                        if n < s.len() {
                            (n + 1) as usize
                        } else {
                            n as usize
                        },
                        i,
                    ),
                ),
                _ => r == Err::<(usize, Instruction), ParseError>(ParseError { line: 1 }),
            }
        }),
{
    let s = source.as_bytes();
    let e = line_end(s, 0);
    proof {
        assert(s@.subrange(0, s@.len() as int) =~= s@);
        assert(s@.take(e as int) =~= s@.subrange(0, e as int));
    }
    match parse_line(s, 0, e) {
        Some(Some(i)) => {
            let consumed = if e < s.len() {
                e + 1
            } else {
                e
            };
            Ok((consumed, i))
        },
        _ => Err(ParseError { line: 1 }),
    }
}

/// Parses a decimal or `0x`-prefixed hexadecimal integer literal of at most
/// 255 that makes up the first word of `input`; returns the word's length and
/// the value.
pub fn parse_int_literal(input: &str) -> (r: Result<(usize, u8), ParseError>)
    ensures
        ({
            let s = input.spec_bytes();
            let n = word_len(s);
            match int_word(s.take(n as int)) {
                Some(v) => r == Ok::<(usize, u8), ParseError>((n as usize, v)),
                None => r == Err::<(usize, u8), ParseError>(ParseError { line: 1 }),
            }
        }),
{
    let s = input.as_bytes();
    let e = word_end(s, 0, s.len());
    proof {
        assert(s@.subrange(0, s@.len() as int) =~= s@);
        assert(s@.take(e as int) =~= s@.subrange(0, e as int));
    }
    match int_at(s, 0, e) {
        Some(v) => Ok((e, v)),
        None => Err(ParseError { line: 1 }),
    }
}

impl<'a> TryFrom<&'a str> for Flags {
    type Error = ParseError;

    /// Reads a string of flag letters, repeats allowed.
    fn try_from(value: &'a str) -> (r: Result<Flags, ParseError>)
        ensures
            r == match flags_word(value.spec_bytes()) {
                Some(f) => Ok::<Flags, ParseError>(f),
                None => Err(ParseError { line: 1 }),
            },
    {
        let s = value.as_bytes();
        proof {
            assert(s@.subrange(0, s@.len() as int) =~= s@);
        }
        match flags_at(s, 0, s.len()) {
            Some(f) => Ok(f),
            None => Err(ParseError { line: 1 }),
        }
    }
}

impl<'a> vstd::std_specs::convert::TryFromSpecImpl<&'a str> for Flags {
    open spec fn obeys_try_from_spec() -> bool {
        true
    }

    open spec fn try_from_spec(value: &'a str) -> Result<Flags, ParseError> {
        match flags_word(value.spec_bytes()) {
            Some(f) => Ok(f),
            None => Err(ParseError { line: 1 }),
        }
    }
}

} // verus!
