//! Byte and word helpers shared by the register file, the memory bus and the
//! instruction set.

use crate::bits::{insert, spec_insert};
use vstd::prelude::*;

verus! {

/// The word whose high half is `high` and whose low half is `low`.
pub open spec fn spec_join(high: u8, low: u8) -> u16 {
    (high as int * 256 + low as int) as u16
}

/// The high half of a word.
pub open spec fn spec_high(x: u16) -> u8 {
    (x as int / 256) as u8
}

/// The low half of a word.
pub open spec fn spec_low(x: u16) -> u8 {
    (x as int % 256) as u8
}

/// Shifts, masks and casts on bytes and words, restated as arithmetic.
pub proof fn lemma_word_halves(x: u16, a: u8, b: u8)
    by (bit_vector)
    ensures
        (x >> 8) == x / 256,
        (x >> 8) < 256,
        (x & 0xFF) == x % 256,
        (b as u16) | ((a as u16) << 8) == (a as u16) * 256 + (b as u16),
{
}

/// Upper eight bits of a word.
pub fn high_byte(x: u16) -> (r: u8)
    ensures
        r == spec_high(x),
{
    proof {
        lemma_word_halves(x, 0, 0);
    }
    (x >> 8) as u8
}

/// Lower eight bits of a word.
pub fn low_byte(x: u16) -> (r: u8)
    ensures
        r == spec_low(x),
{
    proof {
        lemma_word_halves(x, 0, 0);
    }
    (x & 0xFF) as u8
}

/// Joins two bytes into a word, `a` becoming the high half.
pub fn join_bytes(a: u8, b: u8) -> (r: u16)
    ensures
        r == spec_join(a, b),
{
    proof {
        lemma_word_halves(0, a, b);
    }
    let mut join: u16 = b as u16;
    join |= (a as u16) << 8;
    join
}

/// Whether the bit of `v` whose place value is `weight` (a power of two) is
/// set.
#[verifier::opaque]
pub open spec fn spec_bit_at(v: u8, weight: int) -> bool {
    (v as int / weight) % 2 == 1
}

/// `v` with the bit of place value `weight` made equal to `set`, every other
/// bit kept.
#[verifier::opaque]
pub open spec fn spec_with_bit(v: u8, weight: int, set: bool) -> u8 {
    (v as int - (if spec_bit_at(v, weight) {
        weight
    } else {
        0
    }) + (if set {
        weight
    } else {
        0
    })) as u8
}

/// Setting, clearing and testing one bit of a byte with `|` and `&`, restated
/// as arithmetic on the bit's place value.
pub proof fn lemma_bit_masks(v: u8)
    by (bit_vector)
    ensures
        (v | 0x80) == (if (v / 128) % 2 == 1 { v } else { (v + 128) as u8 }),
        (v | 0x40) == (if (v / 64) % 2 == 1 { v } else { (v + 64) as u8 }),
        (v | 0x20) == (if (v / 32) % 2 == 1 { v } else { (v + 32) as u8 }),
        (v | 0x10) == (if (v / 16) % 2 == 1 { v } else { (v + 16) as u8 }),
        (v | 0x08) == (if (v / 8) % 2 == 1 { v } else { (v + 8) as u8 }),
        (v | 0x04) == (if (v / 4) % 2 == 1 { v } else { (v + 4) as u8 }),
        (v | 0x02) == (if (v / 2) % 2 == 1 { v } else { (v + 2) as u8 }),
        (v | 0x01) == (if (v / 1) % 2 == 1 { v } else { (v + 1) as u8 }),
        (v & 0x7F) == (if (v / 128) % 2 == 1 { (v - 128) as u8 } else { v }),
        (v & 0xBF) == (if (v / 64) % 2 == 1 { (v - 64) as u8 } else { v }),
        (v & 0xDF) == (if (v / 32) % 2 == 1 { (v - 32) as u8 } else { v }),
        (v & 0xEF) == (if (v / 16) % 2 == 1 { (v - 16) as u8 } else { v }),
        (v & 0xF7) == (if (v / 8) % 2 == 1 { (v - 8) as u8 } else { v }),
        (v & 0xFB) == (if (v / 4) % 2 == 1 { (v - 4) as u8 } else { v }),
        (v & 0xFD) == (if (v / 2) % 2 == 1 { (v - 2) as u8 } else { v }),
        (v & 0xFE) == (if (v / 1) % 2 == 1 { (v - 1) as u8 } else { v }),
        ((v & 0x80) >> 7 == 1) == ((v / 128) % 2 == 1),
        ((v & 0x40) >> 6 == 1) == ((v / 64) % 2 == 1),
        ((v & 0x20) >> 5 == 1) == ((v / 32) % 2 == 1),
        ((v & 0x10) >> 4 == 1) == ((v / 16) % 2 == 1),
        ((v & 0x08) >> 3 == 1) == ((v / 8) % 2 == 1),
        ((v & 0x04) >> 2 == 1) == ((v / 4) % 2 == 1),
        ((v & 0x02) >> 1 == 1) == ((v / 2) % 2 == 1),
        ((v & 0x01) == 1) == ((v / 1) % 2 == 1),
{
}

/// Giving one bit of a byte a value makes that bit read as the value and
/// leaves the seven other bits as they were.
pub proof fn lemma_with_bit(v: u8, set: bool)
    by (bit_vector)
    ensures
        spec_bit_at(spec_with_bit(v, 1, set), 1) == set,
        spec_bit_at(spec_with_bit(v, 1, set), 2) == spec_bit_at(v, 2),
        spec_bit_at(spec_with_bit(v, 1, set), 4) == spec_bit_at(v, 4),
        spec_bit_at(spec_with_bit(v, 1, set), 8) == spec_bit_at(v, 8),
        spec_bit_at(spec_with_bit(v, 1, set), 16) == spec_bit_at(v, 16),
        spec_bit_at(spec_with_bit(v, 1, set), 32) == spec_bit_at(v, 32),
        spec_bit_at(spec_with_bit(v, 1, set), 64) == spec_bit_at(v, 64),
        spec_bit_at(spec_with_bit(v, 1, set), 128) == spec_bit_at(v, 128),
        spec_bit_at(spec_with_bit(v, 2, set), 2) == set,
        spec_bit_at(spec_with_bit(v, 2, set), 1) == spec_bit_at(v, 1),
        spec_bit_at(spec_with_bit(v, 2, set), 4) == spec_bit_at(v, 4),
        spec_bit_at(spec_with_bit(v, 2, set), 8) == spec_bit_at(v, 8),
        spec_bit_at(spec_with_bit(v, 2, set), 16) == spec_bit_at(v, 16),
        spec_bit_at(spec_with_bit(v, 2, set), 32) == spec_bit_at(v, 32),
        spec_bit_at(spec_with_bit(v, 2, set), 64) == spec_bit_at(v, 64),
        spec_bit_at(spec_with_bit(v, 2, set), 128) == spec_bit_at(v, 128),
        spec_bit_at(spec_with_bit(v, 4, set), 4) == set,
        spec_bit_at(spec_with_bit(v, 4, set), 1) == spec_bit_at(v, 1),
        spec_bit_at(spec_with_bit(v, 4, set), 2) == spec_bit_at(v, 2),
        spec_bit_at(spec_with_bit(v, 4, set), 8) == spec_bit_at(v, 8),
        spec_bit_at(spec_with_bit(v, 4, set), 16) == spec_bit_at(v, 16),
        spec_bit_at(spec_with_bit(v, 4, set), 32) == spec_bit_at(v, 32),
        spec_bit_at(spec_with_bit(v, 4, set), 64) == spec_bit_at(v, 64),
        spec_bit_at(spec_with_bit(v, 4, set), 128) == spec_bit_at(v, 128),
        spec_bit_at(spec_with_bit(v, 8, set), 8) == set,
        spec_bit_at(spec_with_bit(v, 8, set), 1) == spec_bit_at(v, 1),
        spec_bit_at(spec_with_bit(v, 8, set), 2) == spec_bit_at(v, 2),
        spec_bit_at(spec_with_bit(v, 8, set), 4) == spec_bit_at(v, 4),
        spec_bit_at(spec_with_bit(v, 8, set), 16) == spec_bit_at(v, 16),
        spec_bit_at(spec_with_bit(v, 8, set), 32) == spec_bit_at(v, 32),
        spec_bit_at(spec_with_bit(v, 8, set), 64) == spec_bit_at(v, 64),
        spec_bit_at(spec_with_bit(v, 8, set), 128) == spec_bit_at(v, 128),
        spec_bit_at(spec_with_bit(v, 16, set), 16) == set,
        spec_bit_at(spec_with_bit(v, 16, set), 1) == spec_bit_at(v, 1),
        spec_bit_at(spec_with_bit(v, 16, set), 2) == spec_bit_at(v, 2),
        spec_bit_at(spec_with_bit(v, 16, set), 4) == spec_bit_at(v, 4),
        spec_bit_at(spec_with_bit(v, 16, set), 8) == spec_bit_at(v, 8),
        spec_bit_at(spec_with_bit(v, 16, set), 32) == spec_bit_at(v, 32),
        spec_bit_at(spec_with_bit(v, 16, set), 64) == spec_bit_at(v, 64),
        spec_bit_at(spec_with_bit(v, 16, set), 128) == spec_bit_at(v, 128),
        spec_bit_at(spec_with_bit(v, 32, set), 32) == set,
        spec_bit_at(spec_with_bit(v, 32, set), 1) == spec_bit_at(v, 1),
        spec_bit_at(spec_with_bit(v, 32, set), 2) == spec_bit_at(v, 2),
        spec_bit_at(spec_with_bit(v, 32, set), 4) == spec_bit_at(v, 4),
        spec_bit_at(spec_with_bit(v, 32, set), 8) == spec_bit_at(v, 8),
        spec_bit_at(spec_with_bit(v, 32, set), 16) == spec_bit_at(v, 16),
        spec_bit_at(spec_with_bit(v, 32, set), 64) == spec_bit_at(v, 64),
        spec_bit_at(spec_with_bit(v, 32, set), 128) == spec_bit_at(v, 128),
        spec_bit_at(spec_with_bit(v, 64, set), 64) == set,
        spec_bit_at(spec_with_bit(v, 64, set), 1) == spec_bit_at(v, 1),
        spec_bit_at(spec_with_bit(v, 64, set), 2) == spec_bit_at(v, 2),
        spec_bit_at(spec_with_bit(v, 64, set), 4) == spec_bit_at(v, 4),
        spec_bit_at(spec_with_bit(v, 64, set), 8) == spec_bit_at(v, 8),
        spec_bit_at(spec_with_bit(v, 64, set), 16) == spec_bit_at(v, 16),
        spec_bit_at(spec_with_bit(v, 64, set), 32) == spec_bit_at(v, 32),
        spec_bit_at(spec_with_bit(v, 64, set), 128) == spec_bit_at(v, 128),
        spec_bit_at(spec_with_bit(v, 128, set), 128) == set,
        spec_bit_at(spec_with_bit(v, 128, set), 1) == spec_bit_at(v, 1),
        spec_bit_at(spec_with_bit(v, 128, set), 2) == spec_bit_at(v, 2),
        spec_bit_at(spec_with_bit(v, 128, set), 4) == spec_bit_at(v, 4),
        spec_bit_at(spec_with_bit(v, 128, set), 8) == spec_bit_at(v, 8),
        spec_bit_at(spec_with_bit(v, 128, set), 16) == spec_bit_at(v, 16),
        spec_bit_at(spec_with_bit(v, 128, set), 32) == spec_bit_at(v, 32),
        spec_bit_at(spec_with_bit(v, 128, set), 64) == spec_bit_at(v, 64),
{
}

/// Giving one bit of a byte the value it was last given changes nothing,
/// clearing a bit makes a byte no larger, and a change to one of the low
/// five bits keeps a byte below 32 below 32.
pub proof fn lemma_with_bit_bounds(v: u8, set: bool)
    by (bit_vector)
    ensures
        ({
            &&& spec_with_bit(spec_with_bit(v, 1, set), 1, set) == spec_with_bit(v, 1, set)
            &&& spec_with_bit(v, 1, false) <= v
            &&& spec_with_bit(spec_with_bit(v, 2, set), 2, set) == spec_with_bit(v, 2, set)
            &&& spec_with_bit(v, 2, false) <= v
            &&& spec_with_bit(spec_with_bit(v, 4, set), 4, set) == spec_with_bit(v, 4, set)
            &&& spec_with_bit(v, 4, false) <= v
            &&& spec_with_bit(spec_with_bit(v, 8, set), 8, set) == spec_with_bit(v, 8, set)
            &&& spec_with_bit(v, 8, false) <= v
            &&& spec_with_bit(spec_with_bit(v, 16, set), 16, set) == spec_with_bit(v, 16, set)
            &&& spec_with_bit(v, 16, false) <= v
            &&& spec_with_bit(spec_with_bit(v, 32, set), 32, set) == spec_with_bit(v, 32, set)
            &&& spec_with_bit(v, 32, false) <= v
            &&& spec_with_bit(spec_with_bit(v, 64, set), 64, set) == spec_with_bit(v, 64, set)
            &&& spec_with_bit(v, 64, false) <= v
            &&& spec_with_bit(spec_with_bit(v, 128, set), 128, set) == spec_with_bit(v, 128, set)
            &&& spec_with_bit(v, 128, false) <= v
            &&& v < 32 ==> spec_with_bit(v, 1, set) < 32
            &&& v < 32 ==> spec_with_bit(v, 2, set) < 32
            &&& v < 32 ==> spec_with_bit(v, 4, set) < 32
            &&& v < 32 ==> spec_with_bit(v, 8, set) < 32
            &&& v < 32 ==> spec_with_bit(v, 16, set) < 32
        }),
{
}

/// The byte whose bits 7 to 4 are `z`, `n`, `h`, `c` and whose low nibble is
/// that of `v`.
pub open spec fn spec_with_high_nibble(v: u8, z: bool, n: bool, h: bool, c: bool) -> u8 {
    ((if z { 128int } else { 0 }) + (if n { 64int } else { 0 }) + (if h { 32int } else { 0 }) + (if c {
        16int
    } else {
        0
    }) + v as int % 16) as u8
}

/// Writing bits 7 to 4 of a byte one by one gives the byte with that high
/// nibble; each of the four bits then reads as written and the low nibble
/// is kept.
pub proof fn lemma_high_nibble(v: u8, z: bool, n: bool, h: bool, c: bool)
    by (bit_vector)
    ensures
        spec_with_bit(spec_with_bit(spec_with_bit(spec_with_bit(v, 128, z), 64, n), 32, h), 16, c)
            == spec_with_high_nibble(v, z, n, h, c),
        spec_bit_at(spec_with_high_nibble(v, z, n, h, c), 128) == z,
        spec_bit_at(spec_with_high_nibble(v, z, n, h, c), 64) == n,
        spec_bit_at(spec_with_high_nibble(v, z, n, h, c), 32) == h,
        spec_bit_at(spec_with_high_nibble(v, z, n, h, c), 16) == c,
        spec_with_high_nibble(v, z, n, h, c) % 16 == v % 16,
        spec_with_high_nibble(v, z, n, h, c) / 16 == (if z { 8int } else { 0 }) + (if n { 4int } else { 0 })
            + (if h { 2int } else { 0 }) + (if c { 1int } else { 0 }),
        spec_with_bit(v, 128, z) == spec_with_high_nibble(
            v,
            z,
            spec_bit_at(v, 64),
            spec_bit_at(v, 32),
            spec_bit_at(v, 16),
        ),
        spec_with_bit(v, 64, n) == spec_with_high_nibble(
            v,
            spec_bit_at(v, 128),
            n,
            spec_bit_at(v, 32),
            spec_bit_at(v, 16),
        ),
        spec_with_bit(v, 32, h) == spec_with_high_nibble(
            v,
            spec_bit_at(v, 128),
            spec_bit_at(v, 64),
            h,
            spec_bit_at(v, 16),
        ),
        spec_with_bit(v, 16, c) == spec_with_high_nibble(
            v,
            spec_bit_at(v, 128),
            spec_bit_at(v, 64),
            spec_bit_at(v, 32),
            c,
        ),
{
}

/// Shifts, rotations and masks of a byte, restated as arithmetic.
pub proof fn lemma_shifts(v: u8)
    by (bit_vector)
    ensures
        ({
            &&& (v & (0x80u8 >> 0u32) != 0) == (v >= 128)
            &&& (v & (0x80u8 >> 7u32) != 0) == (v % 2 == 1)
            &&& (v >> 7) == v / 128
            &&& (v << 1) == (v * 2) % 256
            &&& (v << 1) <= 254
            &&& (v << 1) | (v >> 7) == (v * 2) % 256 + v / 128
            &&& (v >> 1) == v / 2
            &&& (v >> 1) | 0x80 == v / 2 + 128
            &&& (v >> 1) | (v << 7) == v / 2 + (v % 2) * 128
            &&& (v & 0x80) | (v >> 1) == v / 2 + (v / 128) * 128
            &&& ((v & 0x0F) << 4) | ((v & 0xF0) >> 4) == (v % 16) * 16 + v / 16
            &&& (v & 0x0F) == v % 16
            &&& (v & 0xF0) == (v / 16) * 16
            &&& !v == 255 - v
        }),
{
}

/// The bit fields of an instruction byte, restated as arithmetic.
pub proof fn lemma_fields(op: u8)
    by (bit_vector)
    ensures
        ({
            &&& (op & 0b1100_0000) >> 6 == op / 64
            &&& (op & 0b0011_1000) >> 3 == (op / 8) % 8
            &&& (op & 0b0000_0111) == op % 8
            &&& (((op & 0b0011_1000) >> 3) & 0b0000_0110) >> 1 == (op / 16) % 4
            &&& ((op & 0b0011_1000) >> 3) & 0b0000_0001 == (op / 8) % 2
        }),
{
}

/// The instruction byte with field `x` in bits 7-6, `y` in bits 5-3 and `z`
/// in bits 2-0.
pub open spec fn spec_opcode(x: u8, y: u8, z: u8) -> u8 {
    (x as int * 64 + y as int * 8 + z as int) as u8
}

/// The byte that `get_opcode_from_small` builds: the three fields, or, when
/// both `p` and `q` are given, `p` in bits 2-1 and `q` in bit 0 in place of
/// `z`.
pub open spec fn spec_opcode_from_small(x: u8, y: u8, z: u8, p: Option<u8>, q: Option<u8>) -> u8 {
    if p is Some && q is Some {
        (x as int * 64 + y as int * 8 + p->0 as int * 2 + q->0 as int) as u8
    } else {
        spec_opcode(x, y, z)
    }
}

/// Each field fits in its bits, and the fields inserted one after the other
/// give the byte that arithmetic on them gives.
proof fn lemma_fields_fit(x: u8, y: u8, z: u8, p: u8, q: u8)
    by (bit_vector)
    requires
        x < 4,
        y < 8,
        z < 8,
        p < 4,
        q < 2,
    ensures
        x >> 2u32 == 0,
        y >> 3u32 == 0,
        z >> 3u32 == 0,
        p >> 2u32 == 0,
        q >> 1u32 == 0,
        spec_insert(spec_insert(spec_insert(0, 0, 2, x), 2, 3, y), 5, 3, z) == x * 64 + y * 8 + z,
        spec_insert(
            spec_insert(spec_insert(spec_insert(spec_insert(0, 0, 2, x), 2, 3, y), 5, 3, z), 5, 2, p),
            7,
            1,
            q,
        ) == x * 64 + y * 8 + p * 2 + q,
{
}

/// Builds an instruction byte from its fields.
pub fn get_opcode_from_small(x: u8, y: u8, z: u8, p: Option<u8>, q: Option<u8>) -> (opcode: u8)
    requires
        x < 4,
        y < 8,
        z < 8,
        p is Some && q is Some ==> p->0 < 4 && q->0 < 2,
    ensures
        opcode == spec_opcode_from_small(x, y, z, p, q),
{
    proof {
        lemma_fields_fit(x, y, z, 0, 0);
    }
    let a = match insert(0, 0, 2, x) {
        Some(v) => v,
        None => vstd::pervasive::unreached(),
    };
    let b = match insert(a, 2, 3, y) {
        Some(v) => v,
        None => vstd::pervasive::unreached(),
    };
    let c = match insert(b, 5, 3, z) {
        Some(v) => v,
        None => vstd::pervasive::unreached(),
    };
    match (p, q) {
        (Some(p), Some(q)) => {
            proof {
                lemma_fields_fit(x, y, z, p, q);
            }
            let d = match insert(c, 5, 2, p) {
                Some(v) => v,
                None => vstd::pervasive::unreached(),
            };
            match insert(d, 7, 1, q) {
                Some(v) => v,
                None => vstd::pervasive::unreached(),
            }
        },
        _ => c,
    }
}

} // verus!
