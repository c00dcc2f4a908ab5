//! Points of two signed 16-bit coordinates, and how they travel packed in one
//! 32-bit word.

use vstd::prelude::*;

verus! {

/// The signed 16-bit number whose two's-complement bit pattern is `u`.
pub open spec fn signed16(u: int) -> int {
    if u >= 32768 {
        u - 65536
    } else {
        u
    }
}

/// The unsigned 16-bit bit pattern of the two's-complement number `v`.
pub open spec fn unsigned16(v: int) -> int {
    if v < 0 {
        v + 65536
    } else {
        v
    }
}

/// The signed 32-bit number whose two's-complement bit pattern is `u`.
pub open spec fn signed32(u: int) -> int {
    if u >= 2147483648 {
        u - 4294967296
    } else {
        u
    }
}

/// The unsigned 32-bit bit pattern of the two's-complement number `v`.
pub open spec fn unsigned32(v: int) -> int {
    if v < 0 {
        v + 4294967296
    } else {
        v
    }
}

/// The 32-bit word that carries `x` in its upper and `y` in its lower half.
pub open spec fn packed_word(x: i16, y: i16) -> int {
    unsigned16(x as int) * 65536 + unsigned16(y as int)
}

/// Reinterprets a 16-bit pattern as a signed number.
pub fn to_signed16(u: u16) -> (v: i16)
    ensures
        v as int == signed16(u as int),
{
    if u >= 32768 {
        let wide: i32 = u as i32 - 65536;
        wide as i16
    } else {
        u as i16
    }
}

/// Reinterprets a signed 16-bit number as its bit pattern.
pub fn to_unsigned16(v: i16) -> (u: u16)
    ensures
        u as int == unsigned16(v as int),
{
    if v < 0 {
        let wide: i32 = v as i32 + 65536;
        wide as u16
    } else {
        v as u16
    }
}

/// A pair of signed 16-bit coordinates.
#[derive(Debug, Clone, Copy, PartialEq, Eq, Structural)]
pub struct Point2 {
    pub x: i16,
    pub y: i16,
}

impl DeepView for Point2 {
    type V = Point2;

    open spec fn deep_view(&self) -> Point2 {
        *self
    }
}

/// The point that a 32-bit word carries: `x` in its upper half, `y` in its
/// lower half, each in two's complement.
pub open spec fn unpacked(word: u32) -> Point2 {
    Point2 { x: signed16(word as int / 65536) as i16, y: signed16(word as int % 65536) as i16 }
}

impl Point2 {
    /// Splits a 32-bit word: the upper half is `x`, the lower half is `y`.
    pub fn unpack(pos: u32) -> (p: Point2)
        ensures
            p == unpacked(pos),
    {
        let hi: u16 = (pos / 65536) as u16;
        let lo: u16 = (pos % 65536) as u16;
        Point2 { x: to_signed16(hi), y: to_signed16(lo) }
    }

    /// Joins the two coordinates into one 32-bit word, returned as the signed
    /// number with that bit pattern.
    pub fn pack(&self) -> (w: i32)
        ensures
            w as int == signed32(packed_word(self.x, self.y)),
    {
        let hi: u32 = to_unsigned16(self.x) as u32;
        let lo: u32 = to_unsigned16(self.y) as u32;
        let word: u32 = hi * 65536 + lo;
        if word >= 2147483648 {
            let wide: i64 = word as i64 - 4294967296;
            wide as i32
        } else {
            word as i32
        }
    }

    /// The packed word as an unsigned number, as it travels on the wire.
    pub fn pack_unsigned(&self) -> (w: u32)
        ensures
            w as int == packed_word(self.x, self.y),
    {
        let hi: u32 = to_unsigned16(self.x) as u32;
        let lo: u32 = to_unsigned16(self.y) as u32;
        hi * 65536 + lo
    }
}

/// Packing two coordinates and unpacking the word again gives the same
/// coordinates, for every pair of signed 16-bit values; and the signed form
/// of the word stands for the same bit pattern.
pub proof fn lemma_unpack_pack(x: i16, y: i16)
    ensures
        0 <= packed_word(x, y) < 4294967296,
        unpacked(packed_word(x, y) as u32) == (Point2 { x, y }),
        unsigned32(signed32(packed_word(x, y))) == packed_word(x, y),
{
}

/// Unpacking a word and packing the result again gives the same word.
pub proof fn lemma_pack_unpack(pos: u32)
    ensures
        packed_word(unpacked(pos).x, unpacked(pos).y) == pos as int,
{
}

} // verus!
