//! The byte cursor, the big-endian primitives, strings, the self-describing
//! tagged objects, and the small values that many packets share.

use crate::arc_types::{
    lemma_pack_unpack, packed_word, signed16, to_signed16, to_unsigned16, unpacked, unsigned16,
    Point2,
};
use crate::packet::PacketError;
use vstd::prelude::*;
use vstd::slice::{slice_subrange, slice_to_vec};
use vstd::utf8::{decode_utf8, decode_utf8_encode_utf8, encode_utf8, valid_utf8};

verus! {

/// What a decoder yields on a byte sequence from a given offset: the value and
/// the offset behind it, or the reason why there is none.
pub type Parsed<T> = Result<(T, int), PacketError>;

/// The byte at `pos`.
pub open spec fn u8_at(s: Seq<u8>, pos: int) -> u8 {
    s[pos]
}

/// The big-endian unsigned 16-bit number in the two bytes from `pos`.
pub open spec fn u16_at(s: Seq<u8>, pos: int) -> u16 {
    (s[pos] as int * 256 + s[pos + 1] as int) as u16
}

/// The big-endian signed 16-bit number in the two bytes from `pos`.
pub open spec fn i16_at(s: Seq<u8>, pos: int) -> i16 {
    signed16(u16_at(s, pos) as int) as i16
}

/// The big-endian unsigned 32-bit number in the four bytes from `pos`.
pub open spec fn u32_at(s: Seq<u8>, pos: int) -> u32 {
    (u16_at(s, pos) as int * 65536 + u16_at(s, pos + 2) as int) as u32
}

/// The big-endian unsigned 64-bit number in the eight bytes from `pos`.
pub open spec fn u64_at(s: Seq<u8>, pos: int) -> u64 {
    (u32_at(s, pos) as int * 4294967296 + u32_at(s, pos + 4) as int) as u64
}

/// A boolean on the wire is one byte; every value but zero is true.
pub open spec fn bool_at(s: Seq<u8>, pos: int) -> bool {
    s[pos] != 0
}

/// The two bytes of `v`, most significant first.
pub open spec fn be16(v: u16) -> Seq<u8> {
    seq![(v / 256) as u8, (v % 256) as u8]
}

/// The four bytes of `v`, most significant first.
pub open spec fn be32(v: u32) -> Seq<u8> {
    be16((v / 65536) as u16) + be16((v % 65536) as u16)
}

/// The eight bytes of `v`, most significant first.
pub open spec fn be64(v: u64) -> Seq<u8> {
    be32((v / 4294967296) as u32) + be32((v % 4294967296) as u32)
}

/// The two bytes of the signed number `v`, most significant first.
pub open spec fn be16_signed(v: i16) -> Seq<u8> {
    be16(unsigned16(v as int) as u16)
}

/// The byte that stands for a boolean.
pub open spec fn bool_byte(value: bool) -> u8 {
    if value {
        1
    } else {
        0
    }
}

/// A 32-bit IEEE-754 number, held as its bit pattern.
#[derive(Debug, Clone, Copy, PartialEq, Eq, Structural)]
pub struct Float {
    pub bits: u32,
}

impl DeepView for Float {
    type V = Float;

    open spec fn deep_view(&self) -> Float {
        *self
    }
}

/// A 64-bit IEEE-754 number, held as its bit pattern.
#[derive(Debug, Clone, Copy, PartialEq, Eq, Structural)]
pub struct Double {
    pub bits: u64,
}

impl DeepView for Double {
    type V = Double;

    open spec fn deep_view(&self) -> Double {
        *self
    }
}

impl Float {
    /// A pattern is not-a-number when its exponent is all ones and its
    /// fraction is not zero, whatever its sign.
    pub open spec fn nan(self) -> bool {
        self.bits as int % 0x8000_0000 > 0x7F80_0000
    }

    /// Whether the pattern stands for not-a-number.
    pub fn is_nan(&self) -> (r: bool)
        ensures
            r == self.nan(),
    {
        self.bits % 0x8000_0000 > 0x7F80_0000
    }
}

/// Two to the power of `e`.
pub open spec fn pow2(e: nat) -> nat
    decreases e,
{
    if e == 0 {
        1
    } else {
        2 * pow2((e - 1) as nat)
    }
}

/// Powers of two grow with their exponent.
pub proof fn lemma_pow2_grows(a: nat, b: nat)
    requires
        a <= b,
    ensures
        pow2(a) <= pow2(b),
    decreases b,
{
    if a < b {
        lemma_pow2_grows(a, (b - 1) as nat);
    }
}

/// The magnitude of `v`.
pub open spec fn magnitude(v: int) -> int {
    if v < 0 {
        -v
    } else {
        v
    }
}

/// A magnitude doubled until it has 24 bits, and the number of doublings
/// that it took, on top of the `k` that were made before.
pub open spec fn scaled(w: int, k: nat) -> (int, nat)
    decreases 16777216 - w,
{
    if w <= 0 || w >= 8388608 {
        (w, k)
    } else {
        scaled(2 * w, k + 1)
    }
}

/// The pattern of the whole number `v`, for a number of less than 25 bits:
/// the sign in the top bit, the exponent 150 less the doublings that bring
/// the magnitude to 24 bits, and the 23 bits below the leading one.
pub open spec fn float_of(v: int) -> Float {
    if v == 0 {
        Float { bits: 0 }
    } else {
        let (w, k) = scaled(magnitude(v), 0);
        Float {
            bits: ((if v < 0 {
                2147483648int
            } else {
                0int
            }) + (150 - k) * 8388608 + (w - 8388608)) as u32,
        }
    }
}

impl Float {
    /// Whether the pattern stands for the whole number `v`, exactly: zero is
    /// all bits clear; any other number has its sign in the top bit, and its
    /// magnitude is the 24-bit significand, with the hidden bit set, scaled
    /// down by the power of two that the biased exponent leaves below 150.
    pub open spec fn denotes(self, v: int) -> bool {
        if v == 0 {
            self.bits == 0
        } else {
            let sign = self.bits as int / 2147483648;
            let exponent = (self.bits as int / 8388608) % 256;
            let fraction = self.bits as int % 8388608;
            &&& (sign == 1) == (v < 0)
            &&& 127 <= exponent <= 150
            &&& 8388608 + fraction == magnitude(v) * pow2((150 - exponent) as nat)
        }
    }

    /// The pattern of a whole number of less than 25 bits, which a 32-bit
    /// IEEE-754 number holds exactly.
    pub fn from_int(v: i32) -> (r: Float)
        requires
            -16777216 < v < 16777216,
        ensures
            r == float_of(v as int),
            r.denotes(v as int),
    {
        if v == 0 {
            return Float { bits: 0 };
        }
        let mag: u32 = if v < 0 {
            (0 - v) as u32
        } else {
            v as u32
        };
        let mut w: u32 = mag;
        let mut k: u32 = 0;
        assert(pow2(0) == 1);
        while w < 8388608
            invariant
                1 <= mag,
                w == mag * pow2(k as nat),
                1 <= w < 16777216,
                k <= 23,
                scaled(mag as int, 0) == scaled(w as int, k as nat),
            decreases 16777216 - w,
        {
            proof {
                assert(pow2((k + 1) as nat) == 2 * pow2(k as nat));
                assert(mag * (2 * pow2(k as nat)) == 2 * (mag * pow2(k as nat)))
                    by (nonlinear_arith);
                if k >= 23 {
                    lemma_pow2_grows(23, k as nat);
                    reveal_with_fuel(pow2, 24);
                    assert(pow2(23) == 8388608);
                    assert(mag * pow2(k as nat) >= pow2(k as nat)) by (nonlinear_arith)
                        requires
                            mag >= 1,
                    ;
                }
            }
            w = w * 2;
            k = k + 1;
        }
        let exponent: u32 = 150 - k;
        let fraction: u32 = w - 8388608;
        let low: u32 = exponent * 8388608 + fraction;
        let bits: u32 = if v < 0 {
            2147483648 + low
        } else {
            low
        };
        proof {
            crate::type_io::lemma_split(exponent as int, fraction as int, 8388608);
            if v < 0 {
                crate::type_io::lemma_split(1, low as int, 2147483648);
                crate::type_io::lemma_split(256 + exponent as int, fraction as int, 8388608);
                assert(bits as int == (256 + exponent) * 8388608 + fraction);
            } else {
                assert(bits as int / 2147483648 == 0);
            }
        }
        Float { bits }
    }
}

/// A cursor over a byte buffer. Reads advance it; nothing moves it back.
pub struct Reader {
    buf: Vec<u8>,
    pos: usize,
}

impl Reader {
    /// The whole buffer, read or not.
    pub closed spec fn data(&self) -> Seq<u8> {
        self.buf@
    }

    /// The offset of the next byte to read.
    pub closed spec fn position(&self) -> int {
        self.pos as int
    }

    /// The cursor never stands behind the end of its buffer.
    pub open spec fn wf(&self) -> bool {
        0 <= self.position() <= self.data().len()
    }

    /// The number of bytes not yet read.
    pub open spec fn left(&self) -> int {
        self.data().len() - self.position()
    }

    /// This cursor is `before` moved on by `n` bytes.
    pub open spec fn moved(&self, before: &Reader, n: int) -> bool {
        &&& self.wf()
        &&& self.data() == before.data()
        &&& self.position() == before.position() + n
    }

    /// This cursor is `before` moved on to the offset `next`.
    pub open spec fn at(&self, before: &Reader, next: int) -> bool {
        &&& self.wf()
        &&& self.data() == before.data()
        &&& self.position() == next
    }

    /// This cursor reads the same buffer as `before` and stands no earlier.
    pub open spec fn kept(&self, before: &Reader) -> bool {
        &&& self.wf()
        &&& self.data() == before.data()
        &&& before.position() <= self.position()
    }

    pub fn new(buf: Vec<u8>) -> (r: Reader)
        ensures
            r.wf(),
            r.data() == buf@,
            r.position() == 0,
    {
        Reader { buf, pos: 0 }
    }

    /// Succeeds when at least `n` bytes are left, and reads nothing.
    pub fn need(&self, n: usize) -> (r: Result<(), PacketError>)
        requires
            self.wf(),
        ensures
            self.left() >= n ==> r is Ok,
            self.left() < n ==> r == Err::<(), PacketError>(PacketError::UnexpectedEnd),
    {
        if self.buf.len() - self.pos >= n {
            Ok(())
        } else {
            Err(PacketError::UnexpectedEnd)
        }
    }

    /// Succeeds when at least `count` values of `width` bytes each are left,
    /// and reads nothing.
    pub fn need_items(&self, count: usize, width: usize) -> (r: Result<(), PacketError>)
        requires
            self.wf(),
            width > 0,
        ensures
            self.left() >= count * width ==> r is Ok,
            self.left() < count * width ==> r == Err::<(), PacketError>(
                PacketError::UnexpectedEnd,
            ),
    {
        let rest = self.buf.len() - self.pos;
        assert((count <= rest / width) <==> (count * width <= rest)) by (nonlinear_arith)
            requires
                width > 0,
                rest >= 0,
                count >= 0,
        ;
        if count <= rest / width {
            Ok(())
        } else {
            Err(PacketError::UnexpectedEnd)
        }
    }

    pub fn byte(&mut self) -> (b: u8)
        requires
            old(self).wf(),
            old(self).left() >= 1,
        ensures
            final(self).moved(old(self), 1),
            b == u8_at(old(self).data(), old(self).position()),
    {
        assert(self.buf@.len() == self.buf.len());
        let b = self.buf[self.pos];
        self.pos += 1;
        b
    }

    pub fn bool(&mut self) -> (b: bool)
        requires
            old(self).wf(),
            old(self).left() >= 1,
        ensures
            final(self).moved(old(self), 1),
            b == bool_at(old(self).data(), old(self).position()),
    {
        self.byte() != 0
    }

    /// Reads `n` bytes, or as many as are left if that is fewer.
    pub fn bytes(&mut self, n: usize) -> (out: Vec<u8>)
        requires
            old(self).wf(),
        ensures
            n <= old(self).left() ==> final(self).moved(old(self), n as int),
            n > old(self).left() ==> final(self).moved(old(self), old(self).left()),
            out@ == old(self).data().subrange(old(self).position(), final(self).position()),
    {
        let end = if n > self.buf.len() - self.pos {
            self.buf.len()
        } else {
            self.pos + n
        };
        let out = slice_to_vec(slice_subrange(self.buf.as_slice(), self.pos, end));
        self.pos = end;
        out
    }

    /// Moves on by `n` bytes without looking at them.
    pub fn skip(&mut self, n: usize)
        requires
            old(self).wf(),
            old(self).left() >= n,
        ensures
            final(self).moved(old(self), n as int),
    {
        assert(self.buf@.len() == self.buf.len());
        self.pos = self.pos + n;
    }

    pub fn unsigned_short(&mut self) -> (v: u16)
        requires
            old(self).wf(),
            old(self).left() >= 2,
        ensures
            final(self).moved(old(self), 2),
            v == u16_at(old(self).data(), old(self).position()),
    {
        let hi = self.byte();
        let lo = self.byte();
        (hi as u16) * 256 + (lo as u16)
    }

    pub fn short(&mut self) -> (v: i16)
        requires
            old(self).wf(),
            old(self).left() >= 2,
        ensures
            final(self).moved(old(self), 2),
            v == i16_at(old(self).data(), old(self).position()),
    {
        to_signed16(self.unsigned_short())
    }

    pub fn int32(&mut self) -> (v: u32)
        requires
            old(self).wf(),
            old(self).left() >= 4,
        ensures
            final(self).moved(old(self), 4),
            v == u32_at(old(self).data(), old(self).position()),
    {
        let hi = self.unsigned_short();
        let lo = self.unsigned_short();
        (hi as u32) * 65536 + (lo as u32)
    }

    pub fn long(&mut self) -> (v: u64)
        requires
            old(self).wf(),
            old(self).left() >= 8,
        ensures
            final(self).moved(old(self), 8),
            v == u64_at(old(self).data(), old(self).position()),
    {
        let hi = self.int32();
        let lo = self.int32();
        (hi as u64) * 4294967296 + (lo as u64)
    }

    /// Reads the bit pattern of a 32-bit IEEE-754 number.
    pub fn float(&mut self) -> (v: Float)
        requires
            old(self).wf(),
            old(self).left() >= 4,
        ensures
            final(self).moved(old(self), 4),
            v.bits == u32_at(old(self).data(), old(self).position()),
    {
        Float { bits: self.int32() }
    }

    /// Reads the bit pattern of a 64-bit IEEE-754 number.
    pub fn double(&mut self) -> (v: Double)
        requires
            old(self).wf(),
            old(self).left() >= 8,
        ensures
            final(self).moved(old(self), 8),
            v.bits == u64_at(old(self).data(), old(self).position()),
    {
        Double { bits: self.long() }
    }

    pub fn remaining(&self) -> (n: usize)
        requires
            self.wf(),
        ensures
            n == self.left(),
    {
        self.buf.len() - self.pos
    }

    /// The offset of the next byte, counted from the start of the buffer.
    pub fn offset(&self) -> (n: usize)
        ensures
            n == self.position(),
    {
        self.pos
    }

    pub fn read_remaining(&mut self) -> (out: Vec<u8>)
        requires
            old(self).wf(),
        ensures
            final(self).moved(old(self), old(self).left()),
            out@ == old(self).data().subrange(
                old(self).position(),
                old(self).data().len() as int,
            ),
    {
        let n = self.buf.len() - self.pos;
        self.bytes(n)
    }
}

/// Appends `data` to `buf`.
pub fn write_bytes(buf: &mut Vec<u8>, data: &[u8])
    ensures
        final(buf)@ == old(buf)@ + data@,
{
    let mut i: usize = 0;
    while i < data.len()
        invariant
            i <= data@.len(),
            buf@ == old(buf)@ + data@.subrange(0, i as int),
        decreases data@.len() - i,
    {
        buf.push(data[i]);
        i += 1;
        assert(data@.subrange(0, i as int) == data@.subrange(0, i - 1).push(data@[i - 1]));
    }
    assert(data@.subrange(0, i as int) == data@);
}

pub fn write_byte(buf: &mut Vec<u8>, value: u8)
    ensures
        final(buf)@ == old(buf)@.push(value),
{
    buf.push(value);
}

pub fn write_bool(buf: &mut Vec<u8>, value: bool)
    ensures
        final(buf)@ == old(buf)@.push(bool_byte(value)),
{
    buf.push(if value { 1 } else { 0 });
}

pub fn write_unsigned_short(buf: &mut Vec<u8>, short: u16)
    ensures
        final(buf)@ == old(buf)@ + be16(short),
{
    buf.push((short / 256) as u8);
    buf.push((short % 256) as u8);
    assert(buf@ == old(buf)@ + be16(short));
}

pub fn write_short(buf: &mut Vec<u8>, short: i16)
    ensures
        final(buf)@ == old(buf)@ + be16_signed(short),
{
    write_unsigned_short(buf, to_unsigned16(short));
}

pub fn write_int(buf: &mut Vec<u8>, value: u32)
    ensures
        final(buf)@ == old(buf)@ + be32(value),
{
    write_unsigned_short(buf, (value / 65536) as u16);
    write_unsigned_short(buf, (value % 65536) as u16);
    assert(buf@ == old(buf)@ + be32(value));
}

pub fn write_long(buf: &mut Vec<u8>, long: u64)
    ensures
        final(buf)@ == old(buf)@ + be64(long),
{
    write_int(buf, (long / 4294967296) as u32);
    write_int(buf, (long % 4294967296) as u32);
    assert(buf@ == old(buf)@ + be64(long));
}

/// Writes the bit pattern of a 32-bit IEEE-754 number.
pub fn write_float(buf: &mut Vec<u8>, data: Float)
    ensures
        final(buf)@ == old(buf)@ + be32(data.bits),
{
    write_int(buf, data.bits);
}

/// Writes the bit pattern of a 64-bit IEEE-754 number.
pub fn write_double(buf: &mut Vec<u8>, data: Double)
    ensures
        final(buf)@ == old(buf)@ + be64(data.bits),
{
    write_long(buf, data.bits);
}

/// A number written by `be16` is read back by `u16_at`, wherever it stands.
pub proof fn lemma_u16_round_trip(s: Seq<u8>, pos: int, v: u16)
    requires
        0 <= pos,
        pos + 2 <= s.len(),
        s.subrange(pos, pos + 2) == be16(v),
    ensures
        u16_at(s, pos) == v,
{
    assert(s[pos] == s.subrange(pos, pos + 2)[0]);
    assert(s[pos + 1] == s.subrange(pos, pos + 2)[1]);
}

/// A number written by `be32` is read back by `u32_at`, wherever it stands.
pub proof fn lemma_u32_read_back(s: Seq<u8>, pos: int, v: u32)
    requires
        0 <= pos,
        pos + 4 <= s.len(),
        s.subrange(pos, pos + 4) == be32(v),
    ensures
        u32_at(s, pos) == v,
{
    let hi = (v / 65536) as u16;
    let lo = (v % 65536) as u16;
    assert(s.subrange(pos, pos + 2) =~= s.subrange(pos, pos + 4).subrange(0, 2));
    assert(s.subrange(pos + 2, pos + 4) =~= s.subrange(pos, pos + 4).subrange(2, 4));
    assert(be32(v).subrange(0, 2) =~= be16(hi));
    assert(be32(v).subrange(2, 4) =~= be16(lo));
    lemma_u16_round_trip(s, pos, hi);
    lemma_u16_round_trip(s, pos + 2, lo);
}

/// A number read by `u16_at` is written by `be16` as the bytes it was read from.
pub proof fn lemma_u16_bytes(s: Seq<u8>, pos: int)
    requires
        0 <= pos,
        pos + 2 <= s.len(),
    ensures
        be16(u16_at(s, pos)) == s.subrange(pos, pos + 2),
        be16_signed(i16_at(s, pos)) == s.subrange(pos, pos + 2),
{
    assert(be16(u16_at(s, pos)) =~= s.subrange(pos, pos + 2));
}

/// Splitting `hi * base + lo` by `base` gives back `hi` and `lo`.
pub proof fn lemma_split(hi: int, lo: int, base: int)
    requires
        0 <= hi,
        0 <= lo < base,
    ensures
        (hi * base + lo) / base == hi,
        (hi * base + lo) % base == lo,
{
    assert((hi * base + lo) / base == hi && (hi * base + lo) % base == lo) by (nonlinear_arith)
        requires
            0 <= hi,
            0 <= lo < base,
    ;
}

/// A number read by `u32_at` is written by `be32` as the bytes it was read from.
pub proof fn lemma_u32_bytes(s: Seq<u8>, pos: int)
    requires
        0 <= pos,
        pos + 4 <= s.len(),
    ensures
        be32(u32_at(s, pos)) == s.subrange(pos, pos + 4),
{
    let hi = u16_at(s, pos);
    let lo = u16_at(s, pos + 2);
    lemma_split(hi as int, lo as int, 65536);
    assert(u32_at(s, pos) as int == hi as int * 65536 + lo as int);
    assert(be32(u32_at(s, pos)) == be16(hi) + be16(lo));
    lemma_u16_bytes(s, pos);
    lemma_u16_bytes(s, pos + 2);
    assert(s.subrange(pos, pos + 2) + s.subrange(pos + 2, pos + 4) =~= s.subrange(pos, pos + 4));
}

/// A number read by `u64_at` is written by `be64` as the bytes it was read from.
pub proof fn lemma_u64_bytes(s: Seq<u8>, pos: int)
    requires
        0 <= pos,
        pos + 8 <= s.len(),
    ensures
        be64(u64_at(s, pos)) == s.subrange(pos, pos + 8),
{
    let hi = u32_at(s, pos);
    let lo = u32_at(s, pos + 4);
    lemma_split(hi as int, lo as int, 4294967296);
    assert(u64_at(s, pos) as int == hi as int * 4294967296 + lo as int);
    assert(be64(u64_at(s, pos)) == be32(hi) + be32(lo));
    lemma_u32_bytes(s, pos);
    lemma_u32_bytes(s, pos + 4);
    assert(s.subrange(pos, pos + 4) + s.subrange(pos + 4, pos + 8) =~= s.subrange(pos, pos + 8));
}

/// The element-wise deep view of a sequence.
pub open spec fn deep<T: DeepView>(s: Seq<T>) -> Seq<T::V> {
    Seq::new(s.len(), |i: int| s[i].deep_view())
}

/// The deep view of a sequence grows with the sequence.
pub proof fn lemma_deep_push<T: DeepView>(s: Seq<T>, x: T)
    ensures
        deep(s.push(x)) == deep(s).push(x.deep_view()),
{
    assert(deep(s.push(x)) =~= deep(s).push(x.deep_view()));
}

/// The deep view of a vector is the element-wise deep view of its contents.
pub proof fn lemma_deep_vec<T: DeepView>(v: Vec<T>)
    ensures
        v.deep_view() == deep(v@),
{
    assert(v.deep_view() =~= deep(v@));
}

/// The deep view of nothing is nothing.
pub proof fn lemma_deep_empty<T: DeepView>()
    ensures
        deep(Seq::<T>::empty()) == Seq::<T::V>::empty(),
{
    assert(deep(Seq::<T>::empty()) =~= Seq::<T::V>::empty());
}

/// A count read as a signed number: a negative one counts nothing.
pub open spec fn count_of(n: int) -> nat {
    if n < 0 {
        0
    } else {
        n as nat
    }
}

/// `n` values decoded one behind the other by `item`, from `pos`.
pub open spec fn repeat<T>(
    item: spec_fn(Seq<u8>, int) -> Parsed<T>,
    s: Seq<u8>,
    pos: int,
    n: nat,
) -> Parsed<Seq<T>>
    decreases n,
{
    if n == 0 {
        Ok((Seq::empty(), pos))
    } else {
        match repeat(item, s, pos, (n - 1) as nat) {
            Err(e) => Err(e),
            Ok((items, p)) => match item(s, p) {
                Err(e) => Err(e),
                Ok((x, q)) => Ok((items.push(x), q)),
            },
        }
    }
}

/// Once a value of the run fails to decode, every longer run fails the same way.
pub proof fn lemma_repeat_fails<T>(
    item: spec_fn(Seq<u8>, int) -> Parsed<T>,
    s: Seq<u8>,
    pos: int,
    k: nat,
    n: nat,
)
    requires
        k <= n,
        repeat(item, s, pos, k) is Err,
    ensures
        repeat(item, s, pos, n) == repeat(item, s, pos, k),
    decreases n,
{
    if k < n {
        lemma_repeat_fails(item, s, pos, k, (n - 1) as nat);
    }
}

/// A run that decodes holds as many values as were asked for.
pub proof fn lemma_repeat_len<T>(
    item: spec_fn(Seq<u8>, int) -> Parsed<T>,
    s: Seq<u8>,
    pos: int,
    n: nat,
)
    ensures
        repeat(item, s, pos, n) matches Ok((values, _)) ==> values.len() == n,
    decreases n,
{
    if n > 0 {
        lemma_repeat_len(item, s, pos, (n - 1) as nat);
    }
}

/// What a decoder returned and where it left the cursor, held against what
/// the bytes say: on success the value and the offset behind it, on failure
/// the same error. The cursor never moves back and keeps its buffer.
pub open spec fn decoded<T: DeepView>(
    r: Result<T, PacketError>,
    before: &Reader,
    after: &Reader,
    want: Parsed<T::V>,
) -> bool {
    &&& after.kept(before)
    &&& match want {
        Ok((v, next)) => r is Ok && r->Ok_0.deep_view() == v && after.position() == next,
        Err(e) => r is Err && r->Err_0 == e,
    }
}

/// The text that `bytes` spell in UTF-8, if they spell any.
pub open spec fn utf8_text(bytes: Seq<u8>) -> Option<Seq<char>> {
    if valid_utf8(bytes) {
        Some(decode_utf8(bytes))
    } else {
        None
    }
}

/// `String::from_utf8` of std, with its error dropped: the text is there
/// exactly when the bytes are valid UTF-8, and is what they decode to.
#[verifier::external_body]
fn utf8_to_string(bytes: Vec<u8>) -> (r: Option<String>)
    ensures
        r.deep_view() == utf8_text(bytes@),
{
    String::from_utf8(bytes).ok()
}

/// A tagged-optional string from `pos`: a presence byte, then a 16-bit length
/// and that many bytes of UTF-8. Whatever is missing or malformed makes the
/// string absent; the offset stops behind the last part that was there.
pub open spec fn prefixed_string_at(s: Seq<u8>, pos: int) -> (Option<Seq<char>>, int) {
    if s.len() - pos <= 0 {
        (None, pos)
    } else if s[pos] == 0 {
        (None, pos + 1)
    } else if s.len() - (pos + 1) < 2 {
        (None, pos + 1)
    } else if s.len() - (pos + 3) < u16_at(s, pos + 1) {
        (None, pos + 3)
    } else {
        (utf8_text(s.subrange(pos + 3, pos + 3 + u16_at(s, pos + 1))), pos + 3 + u16_at(s, pos + 1))
    }
}

/// The end of a run of `n` bytes from `pos`, cut off at the end of `s`.
pub open spec fn clamped_end(s: Seq<u8>, pos: int, n: int) -> int {
    if n > s.len() - pos {
        s.len() as int
    } else {
        pos + n
    }
}

/// A length-prefixed string from `pos`: a 16-bit length, then that many bytes
/// of UTF-8, or as many as are left. Length zero means that it is absent.
pub open spec fn string_at(s: Seq<u8>, pos: int) -> (Option<Seq<char>>, int) {
    if u16_at(s, pos) == 0 {
        (None, pos + 2)
    } else {
        let end = clamped_end(s, pos + 2, u16_at(s, pos) as int);
        (utf8_text(s.subrange(pos + 2, end)), end)
    }
}

pub fn read_prefixed_string(reader: &mut Reader) -> (r: Option<String>)
    requires
        old(reader).wf(),
    ensures
        final(reader).at(
            old(reader),
            prefixed_string_at(old(reader).data(), old(reader).position()).1,
        ),
        r.deep_view() == prefixed_string_at(old(reader).data(), old(reader).position()).0,
{
    if reader.remaining() == 0 {
        return None;
    }
    let has_string = reader.byte() != 0;
    if !has_string {
        return None;
    }
    if reader.remaining() < 2 {
        return None;
    }
    let length = reader.unsigned_short() as usize;
    if reader.remaining() < length {
        return None;
    }
    let string_bytes = reader.bytes(length);
    utf8_to_string(string_bytes)
}

pub fn read_string(reader: &mut Reader) -> (r: Option<String>)
    requires
        old(reader).wf(),
        old(reader).left() >= 2,
    ensures
        final(reader).at(old(reader), string_at(old(reader).data(), old(reader).position()).1),
        r.deep_view() == string_at(old(reader).data(), old(reader).position()).0,
{
    let length = reader.unsigned_short();
    if length == 0 {
        return None;
    }
    let string_bytes = reader.bytes(length as usize);
    utf8_to_string(string_bytes)
}

/// The bytes of a tagged-optional string: a lone zero for the empty text,
/// else one, the 16-bit length of the UTF-8 form, and that form.
pub open spec fn prefixed_string_bytes(text: Seq<char>) -> Seq<u8> {
    if text.len() == 0 {
        seq![0u8]
    } else {
        seq![1u8] + be16(encode_utf8(text).len() as u16) + encode_utf8(text)
    }
}

/// Whether the UTF-8 form of `text` fits a 16-bit length.
pub open spec fn string_fits(text: Seq<char>) -> bool {
    encode_utf8(text).len() <= 65535
}

/// Writes a tagged-optional string. A text whose UTF-8 form is longer than
/// 65535 bytes is refused, and nothing is written.
pub fn write_string(buf: &mut Vec<u8>, string: &str) -> (r: Result<(), PacketError>)
    ensures
        string_fits(string@) ==> r is Ok && final(buf)@ == old(buf)@ + prefixed_string_bytes(
            string@,
        ),
        !string_fits(string@) ==> r == Err::<(), PacketError>(PacketError::EncodingTooLong)
            && final(buf)@ == old(buf)@,
{
    let encoded = string.as_bytes();
    let length = encoded.len();
    if length > 65535 {
        return Err(PacketError::EncodingTooLong);
    }
    if !string.is_empty() {
        buf.push(1);
        write_unsigned_short(buf, length as u16);
        write_bytes(buf, encoded);
        assert(buf@ == old(buf)@ + prefixed_string_bytes(string@));
    } else {
        buf.push(0);
        assert(buf@ == old(buf)@ + prefixed_string_bytes(string@));
    }
    Ok(())
}

/// Why a player was removed from a server.
#[derive(Debug, Clone, Copy, PartialEq, Eq, Structural)]
pub enum KickReason {
    Kick,
    ClientOutdated,
    ServerOutdated,
    Banned,
    GameOver,
    RecentKick,
    NameInUse,
    IdInUse,
    NameEmpty,
    CustomClient,
    ServerClose,
    Vote,
    TypeMismatch,
    Whitelist,
    PlayerLimit,
    ServerRestarting,
}

impl KickReason {
    /// The byte that stands for the reason.
    pub open spec fn code(self) -> u8 {
        match self {
            KickReason::Kick => 0,
            KickReason::ClientOutdated => 1,
            KickReason::ServerOutdated => 2,
            KickReason::Banned => 3,
            KickReason::GameOver => 4,
            KickReason::RecentKick => 5,
            KickReason::NameInUse => 6,
            KickReason::IdInUse => 7,
            KickReason::NameEmpty => 8,
            KickReason::CustomClient => 9,
            KickReason::ServerClose => 10,
            KickReason::Vote => 11,
            KickReason::TypeMismatch => 12,
            KickReason::Whitelist => 13,
            KickReason::PlayerLimit => 14,
            KickReason::ServerRestarting => 15,
        }
    }

    /// The reason that a byte stands for; bytes above 15 stand for none.
    pub open spec fn of_code(code: u8) -> Option<KickReason> {
        match code {
            0 => Some(KickReason::Kick),
            1 => Some(KickReason::ClientOutdated),
            2 => Some(KickReason::ServerOutdated),
            3 => Some(KickReason::Banned),
            4 => Some(KickReason::GameOver),
            5 => Some(KickReason::RecentKick),
            6 => Some(KickReason::NameInUse),
            7 => Some(KickReason::IdInUse),
            8 => Some(KickReason::NameEmpty),
            9 => Some(KickReason::CustomClient),
            10 => Some(KickReason::ServerClose),
            11 => Some(KickReason::Vote),
            12 => Some(KickReason::TypeMismatch),
            13 => Some(KickReason::Whitelist),
            14 => Some(KickReason::PlayerLimit),
            15 => Some(KickReason::ServerRestarting),
            _ => None,
        }
    }

    pub fn from_byte(code: u8) -> (r: Option<KickReason>)
        ensures
            r == KickReason::of_code(code),
            r is Some <==> code <= 15,
    {
        match code {
            0 => Some(KickReason::Kick),
            1 => Some(KickReason::ClientOutdated),
            2 => Some(KickReason::ServerOutdated),
            3 => Some(KickReason::Banned),
            4 => Some(KickReason::GameOver),
            5 => Some(KickReason::RecentKick),
            6 => Some(KickReason::NameInUse),
            7 => Some(KickReason::IdInUse),
            8 => Some(KickReason::NameEmpty),
            9 => Some(KickReason::CustomClient),
            10 => Some(KickReason::ServerClose),
            11 => Some(KickReason::Vote),
            12 => Some(KickReason::TypeMismatch),
            13 => Some(KickReason::Whitelist),
            14 => Some(KickReason::PlayerLimit),
            15 => Some(KickReason::ServerRestarting),
            _ => None,
        }
    }

    pub fn to_byte(self) -> (code: u8)
        ensures
            code == self.code(),
            KickReason::of_code(code) == Some(self),
    {
        match self {
            KickReason::Kick => 0,
            KickReason::ClientOutdated => 1,
            KickReason::ServerOutdated => 2,
            KickReason::Banned => 3,
            KickReason::GameOver => 4,
            KickReason::RecentKick => 5,
            KickReason::NameInUse => 6,
            KickReason::IdInUse => 7,
            KickReason::NameEmpty => 8,
            KickReason::CustomClient => 9,
            KickReason::ServerClose => 10,
            KickReason::Vote => 11,
            KickReason::TypeMismatch => 12,
            KickReason::Whitelist => 13,
            KickReason::PlayerLimit => 14,
            KickReason::ServerRestarting => 15,
        }
    }
}

/// Reads a kick reason; a byte above 15 names none.
pub fn read_kick(reader: &mut Reader) -> (r: Option<KickReason>)
    requires
        old(reader).wf(),
        old(reader).left() >= 1,
    ensures
        final(reader).moved(old(reader), 1),
        r == KickReason::of_code(u8_at(old(reader).data(), old(reader).position())),
{
    KickReason::from_byte(reader.byte())
}

pub fn write_kick(buf: &mut Vec<u8>, reason: KickReason)
    ensures
        final(buf)@ == old(buf)@.push(reason.code()),
{
    buf.push(reason.to_byte());
}

/// The position of a tile on the map.
#[derive(Debug, Clone, Copy, PartialEq, Eq, Structural)]
pub struct Tile {
    pub x: i16,
    pub y: i16,
}

impl DeepView for Tile {
    type V = Tile;

    open spec fn deep_view(&self) -> Tile {
        *self
    }
}

/// The tile in the four bytes from `pos`.
pub open spec fn tile_at(s: Seq<u8>, pos: int) -> Tile {
    Tile { x: i16_at(s, pos), y: i16_at(s, pos + 2) }
}

pub fn read_tile(reader: &mut Reader) -> (t: Tile)
    requires
        old(reader).wf(),
        old(reader).left() >= 4,
    ensures
        final(reader).moved(old(reader), 4),
        t == tile_at(old(reader).data(), old(reader).position()),
{
    let x = reader.short();
    let y = reader.short();
    Tile { x, y }
}

pub fn write_tile(buf: &mut Vec<u8>, tile: Tile)
    ensures
        final(buf)@ == old(buf)@ + be16_signed(tile.x) + be16_signed(tile.y),
{
    write_short(buf, tile.x);
    write_short(buf, tile.y);
}

/// The address of a unit: its kind and its id, not the unit itself.
#[derive(Debug, Clone, Copy, PartialEq, Eq, Structural)]
pub struct Unit {
    pub unit_type: u8,
    pub id: u32,
}

impl DeepView for Unit {
    type V = Unit;

    open spec fn deep_view(&self) -> Unit {
        *self
    }
}

/// The unit handle in the five bytes from `pos`: the kind comes first.
pub open spec fn unit_at(s: Seq<u8>, pos: int) -> Unit {
    Unit { unit_type: u8_at(s, pos), id: u32_at(s, pos + 1) }
}

pub fn read_unit(reader: &mut Reader) -> (u: Unit)
    requires
        old(reader).wf(),
        old(reader).left() >= 5,
    ensures
        final(reader).moved(old(reader), 5),
        u == unit_at(old(reader).data(), old(reader).position()),
{
    let unit_type = reader.byte();
    let id = reader.int32();
    Unit { unit_type, id }
}

/// Writes a unit handle: the id comes first, the kind last.
pub fn write_unit(buf: &mut Vec<u8>, unit: Unit)
    ensures
        final(buf)@ == (old(buf)@ + be32(unit.id)).push(unit.unit_type),
{
    write_int(buf, unit.id);
    write_byte(buf, unit.unit_type);
}

/// A stack of one kind of item.
#[derive(Debug, Clone, Copy, PartialEq, Eq, Structural)]
pub struct Items {
    pub id: i16,
    pub count: u32,
}

impl DeepView for Items {
    type V = Items;

    open spec fn deep_view(&self) -> Items {
        *self
    }
}

/// The item stack in the six bytes from `pos`.
pub open spec fn items_at(s: Seq<u8>, pos: int) -> Items {
    Items { id: i16_at(s, pos), count: u32_at(s, pos + 2) }
}

pub fn read_items(reader: &mut Reader) -> (i: Items)
    requires
        old(reader).wf(),
        old(reader).left() >= 6,
    ensures
        final(reader).moved(old(reader), 6),
        i == items_at(old(reader).data(), old(reader).position()),
{
    let id = reader.short();
    let count = reader.int32();
    Items { id, count }
}

/// A pair of 32-bit IEEE-754 numbers.
#[derive(Debug, Clone, Copy, PartialEq, Eq, Structural)]
pub struct Vec2 {
    pub x: Float,
    pub y: Float,
}

impl DeepView for Vec2 {
    type V = Vec2;

    open spec fn deep_view(&self) -> Vec2 {
        *self
    }
}

/// The pair in the eight bytes from `pos`.
pub open spec fn vec2_at(s: Seq<u8>, pos: int) -> Vec2 {
    Vec2 { x: Float { bits: u32_at(s, pos) }, y: Float { bits: u32_at(s, pos + 4) } }
}

/// A pair of 32-bit IEEE-754 numbers that stands for no pair at all when
/// either of them is not-a-number.
#[derive(Debug, Clone, Copy, PartialEq, Eq, Structural)]
pub struct Vec2Nullable {
    pub x: Float,
    pub y: Float,
}

impl Vec2Nullable {
    /// The pair that the two numbers stand for, if they stand for one.
    pub open spec fn pair(self) -> Option<Vec2> {
        if self.x.nan() || self.y.nan() {
            None
        } else {
            Some(Vec2 { x: self.x, y: self.y })
        }
    }

    /// The pair, or nothing where either number is not-a-number.
    pub fn get(&self) -> (r: Option<Vec2>)
        ensures
            r == self.pair(),
    {
        if self.x.is_nan() || self.y.is_nan() {
            None
        } else {
            Some(Vec2 { x: self.x, y: self.y })
        }
    }

    /// The two numbers that stand for `pair`: not-a-number twice for none.
    pub fn of(pair: Option<Vec2>) -> (r: Vec2Nullable)
        ensures
            pair matches Some(v) ==> r.x == v.x && r.y == v.y,
            pair is None ==> r.x.bits == 0x7FC0_0000 && r.y.bits == 0x7FC0_0000 && r.pair() is None,
    {
        match pair {
            Some(v) => Vec2Nullable { x: v.x, y: v.y },
            None => Vec2Nullable { x: Float { bits: 0x7FC0_0000 }, y: Float { bits: 0x7FC0_0000 } },
        }
    }
}

/// The pair in the eight bytes from `pos`, absent when either half is
/// not-a-number.
pub open spec fn vec2_nullable_at(s: Seq<u8>, pos: int) -> Option<Vec2> {
    (Vec2Nullable { x: vec2_at(s, pos).x, y: vec2_at(s, pos).y }).pair()
}

pub fn read_vec2(reader: &mut Reader) -> (v: Vec2)
    requires
        old(reader).wf(),
        old(reader).left() >= 8,
    ensures
        final(reader).moved(old(reader), 8),
        v == vec2_at(old(reader).data(), old(reader).position()),
{
    let x = reader.float();
    let y = reader.float();
    Vec2 { x, y }
}

pub fn read_vec2_nullable(reader: &mut Reader) -> (v: Option<Vec2>)
    requires
        old(reader).wf(),
        old(reader).left() >= 8,
    ensures
        final(reader).moved(old(reader), 8),
        v == vec2_nullable_at(old(reader).data(), old(reader).position()),
{
    let x = reader.float();
    let y = reader.float();
    Vec2Nullable { x, y }.get()
}

/// The command in the byte at `pos`; 255 stands for none.
pub open spec fn command_at(s: Seq<u8>, pos: int) -> Option<u8> {
    if s[pos] == 255 {
        None
    } else {
        Some(s[pos])
    }
}

pub fn read_command(reader: &mut Reader) -> (c: Option<u8>)
    requires
        old(reader).wf(),
        old(reader).left() >= 1,
    ensures
        final(reader).moved(old(reader), 1),
        c == command_at(old(reader).data(), old(reader).position()),
{
    let value = reader.byte();
    if value == 255 {
        None
    } else {
        Some(value)
    }
}

/// `n` unsigned 32-bit numbers, one behind the other from `pos`.
pub open spec fn u32s_at(s: Seq<u8>, pos: int, n: nat) -> Seq<u32> {
    Seq::new(n, |i: int| u32_at(s, pos + 4 * i))
}

/// `n` packed points, one behind the other from `pos`.
pub open spec fn point2s_at(s: Seq<u8>, pos: int, n: nat) -> Seq<Point2> {
    Seq::new(n, |i: int| unpacked(u32_at(s, pos + 4 * i)))
}

/// `n` booleans, one behind the other from `pos`.
pub open spec fn bools_at(s: Seq<u8>, pos: int, n: nat) -> Seq<bool> {
    Seq::new(n, |i: int| bool_at(s, pos + i))
}

/// `n` pairs of 32-bit IEEE-754 numbers, one behind the other from `pos`.
pub open spec fn vec2s_at(s: Seq<u8>, pos: int, n: nat) -> Seq<Vec2> {
    Seq::new(n, |i: int| vec2_at(s, pos + 8 * i))
}

/// `n` 32-bit IEEE-754 numbers, one behind the other from `pos`.
pub open spec fn floats_at(s: Seq<u8>, pos: int, n: nat) -> Seq<Float> {
    Seq::new(n, |i: int| Float { bits: u32_at(s, pos + 4 * i) })
}

/// Reads `n` unsigned 32-bit numbers.
pub fn read_ints(reader: &mut Reader, n: usize) -> (out: Vec<u32>)
    requires
        old(reader).wf(),
        old(reader).left() >= 4 * n,
    ensures
        final(reader).moved(old(reader), 4 * n),
        out@ == u32s_at(old(reader).data(), old(reader).position(), n as nat),
{
    let mut out: Vec<u32> = Vec::new();
    let mut i: usize = 0;
    while i < n
        invariant
            i <= n,
            reader.moved(old(reader), 4 * i),
            old(reader).left() >= 4 * n,
            out@ == u32s_at(old(reader).data(), old(reader).position(), i as nat),
        decreases n - i,
    {
        out.push(reader.int32());
        i += 1;
        assert(out@ =~= u32s_at(old(reader).data(), old(reader).position(), i as nat));
    }
    out
}

/// Reads `n` packed points.
pub fn read_point2s(reader: &mut Reader, n: usize) -> (out: Vec<Point2>)
    requires
        old(reader).wf(),
        old(reader).left() >= 4 * n,
    ensures
        final(reader).moved(old(reader), 4 * n),
        out@ == point2s_at(old(reader).data(), old(reader).position(), n as nat),
{
    let mut out: Vec<Point2> = Vec::new();
    let mut i: usize = 0;
    while i < n
        invariant
            i <= n,
            reader.moved(old(reader), 4 * i),
            old(reader).left() >= 4 * n,
            out@ == point2s_at(old(reader).data(), old(reader).position(), i as nat),
        decreases n - i,
    {
        out.push(Point2::unpack(reader.int32()));
        i += 1;
        assert(out@ =~= point2s_at(old(reader).data(), old(reader).position(), i as nat));
    }
    out
}

/// Reads `n` booleans.
pub fn read_bools(reader: &mut Reader, n: usize) -> (out: Vec<bool>)
    requires
        old(reader).wf(),
        old(reader).left() >= n,
    ensures
        final(reader).moved(old(reader), n as int),
        out@ == bools_at(old(reader).data(), old(reader).position(), n as nat),
{
    let mut out: Vec<bool> = Vec::new();
    let mut i: usize = 0;
    while i < n
        invariant
            i <= n,
            reader.moved(old(reader), i as int),
            old(reader).left() >= n,
            out@ == bools_at(old(reader).data(), old(reader).position(), i as nat),
        decreases n - i,
    {
        out.push(reader.bool());
        i += 1;
        assert(out@ =~= bools_at(old(reader).data(), old(reader).position(), i as nat));
    }
    out
}

/// Reads `n` pairs of 32-bit IEEE-754 numbers.
pub fn read_vec2s(reader: &mut Reader, n: usize) -> (out: Vec<Vec2>)
    requires
        old(reader).wf(),
        old(reader).left() >= 8 * n,
    ensures
        final(reader).moved(old(reader), 8 * n),
        out@ == vec2s_at(old(reader).data(), old(reader).position(), n as nat),
{
    let mut out: Vec<Vec2> = Vec::new();
    let mut i: usize = 0;
    while i < n
        invariant
            i <= n,
            reader.moved(old(reader), 8 * i),
            old(reader).left() >= 8 * n,
            out@ == vec2s_at(old(reader).data(), old(reader).position(), i as nat),
        decreases n - i,
    {
        out.push(read_vec2(reader));
        i += 1;
        assert(out@ =~= vec2s_at(old(reader).data(), old(reader).position(), i as nat));
    }
    out
}

/// Reads `n` 32-bit IEEE-754 numbers.
pub fn read_floats(reader: &mut Reader, n: usize) -> (out: Vec<Float>)
    requires
        old(reader).wf(),
        old(reader).left() >= 4 * n,
    ensures
        final(reader).moved(old(reader), 4 * n),
        out@ == floats_at(old(reader).data(), old(reader).position(), n as nat),
{
    let mut out: Vec<Float> = Vec::new();
    let mut i: usize = 0;
    while i < n
        invariant
            i <= n,
            reader.moved(old(reader), 4 * i),
            old(reader).left() >= 4 * n,
            out@ == floats_at(old(reader).data(), old(reader).position(), i as nat),
        decreases n - i,
    {
        out.push(reader.float());
        i += 1;
        assert(out@ =~= floats_at(old(reader).data(), old(reader).position(), i as nat));
    }
    out
}

/// A self-describing value: a tag byte says which kind follows.
#[derive(Debug, Clone)]
pub enum Object {
    Null,
    Int(u32),
    Long(u64),
    Float(Float),
    String(Option<String>),
    IntSequence(Vec<u32>),
    Point2(Point2),
    Point2Array(Vec<Point2>),
    Boolean(bool),
    Double(Double),
    ByteArray(Vec<u8>),
    BooleanArray(Vec<bool>),
    Vec2Array(Vec<Vec2>),
    Vec2(Vec2),
    /// A value whose tag is not known. No decoder yields it.
    Unknown,
    /// A value of a kind that is read past but not kept.
    NotImplemented,
}

/// What an `Object` holds, as plain mathematical values.
pub enum ObjectView {
    Null,
    Int(u32),
    Long(u64),
    Float(Float),
    String(Option<Seq<char>>),
    IntSequence(Seq<u32>),
    Point2(Point2),
    Point2Array(Seq<Point2>),
    Boolean(bool),
    Double(Double),
    ByteArray(Seq<u8>),
    BooleanArray(Seq<bool>),
    Vec2Array(Seq<Vec2>),
    Vec2(Vec2),
    Unknown,
    NotImplemented,
}

impl DeepView for Object {
    type V = ObjectView;

    open spec fn deep_view(&self) -> ObjectView {
        match self {
            Object::Null => ObjectView::Null,
            Object::Int(v) => ObjectView::Int(*v),
            Object::Long(v) => ObjectView::Long(*v),
            Object::Float(v) => ObjectView::Float(*v),
            Object::String(v) => ObjectView::String(v.deep_view()),
            Object::IntSequence(v) => ObjectView::IntSequence(v@),
            Object::Point2(v) => ObjectView::Point2(*v),
            Object::Point2Array(v) => ObjectView::Point2Array(v@),
            Object::Boolean(v) => ObjectView::Boolean(*v),
            Object::Double(v) => ObjectView::Double(*v),
            Object::ByteArray(v) => ObjectView::ByteArray(v@),
            Object::BooleanArray(v) => ObjectView::BooleanArray(v@),
            Object::Vec2Array(v) => ObjectView::Vec2Array(v@),
            Object::Vec2(v) => ObjectView::Vec2(*v),
            Object::Unknown => ObjectView::Unknown,
            Object::NotImplemented => ObjectView::NotImplemented,
        }
    }
}

/// A value of fixed width `width` behind the tag at `pos`.
pub open spec fn fixed_object(s: Seq<u8>, pos: int, width: int, value: ObjectView) -> Parsed<
    ObjectView,
> {
    if pos + 1 + width > s.len() {
        Err(PacketError::UnexpectedEnd)
    } else {
        Ok((value, pos + 1 + width))
    }
}

/// An array behind the tag at `pos`: a signed 16-bit count, then that many
/// values of `width` bytes each.
pub open spec fn short_array(s: Seq<u8>, pos: int, width: int, value: ObjectView) -> Parsed<
    ObjectView,
> {
    if pos + 3 > s.len() {
        Err(PacketError::UnexpectedEnd)
    } else if pos + 3 + width * count_of(i16_at(s, pos + 1) as int) > s.len() {
        Err(PacketError::UnexpectedEnd)
    } else {
        Ok((value, pos + 3 + width * count_of(i16_at(s, pos + 1) as int)))
    }
}

/// The tagged object that starts at `pos`, and the offset behind it.
///
/// Tags 5, 9, 12, 13, 15, 17, 20, 21, 22 and 23 are read past and yield
/// `NotImplemented`; a tag above 23 is an error.
pub open spec fn parse_object(s: Seq<u8>, pos: int) -> Parsed<ObjectView>
    decreases s.len() - pos, 0nat,
{
    if pos < 0 || pos >= s.len() {
        Err(PacketError::UnexpectedEnd)
    } else {
        let p = pos + 1;
        let n = count_of(i16_at(s, p) as int);
        match s[pos] {
            0 => Ok((ObjectView::Null, p)),
            1 => fixed_object(s, pos, 4, ObjectView::Int(u32_at(s, p))),
            2 => fixed_object(s, pos, 8, ObjectView::Long(u64_at(s, p))),
            3 => fixed_object(s, pos, 4, ObjectView::Float(Float { bits: u32_at(s, p) })),
            4 => Ok(
                (ObjectView::String(prefixed_string_at(s, p).0), prefixed_string_at(s, p).1),
            ),
            5 => fixed_object(s, pos, 3, ObjectView::NotImplemented),
            6 => short_array(s, pos, 4, ObjectView::IntSequence(u32s_at(s, p + 2, n))),
            7 => fixed_object(s, pos, 4, ObjectView::Point2(unpacked(u32_at(s, p)))),
            8 => if p + 1 > s.len() {
                Err(PacketError::UnexpectedEnd)
            } else if p + 1 + 4 * s[p] > s.len() {
                Err(PacketError::UnexpectedEnd)
            } else {
                Ok(
                    (
                        ObjectView::Point2Array(point2s_at(s, p + 1, s[p] as nat)),
                        p + 1 + 4 * s[p],
                    ),
                )
            },
            9 => fixed_object(s, pos, 3, ObjectView::NotImplemented),
            10 => fixed_object(s, pos, 1, ObjectView::Boolean(bool_at(s, p))),
            11 => fixed_object(s, pos, 8, ObjectView::Double(Double { bits: u64_at(s, p) })),
            12 => fixed_object(s, pos, 4, ObjectView::NotImplemented),
            13 => fixed_object(s, pos, 2, ObjectView::NotImplemented),
            14 => if p + 4 > s.len() {
                Err(PacketError::UnexpectedEnd)
            } else if p + 4 + u32_at(s, p) > s.len() {
                Err(PacketError::UnexpectedEnd)
            } else {
                Ok(
                    (
                        ObjectView::ByteArray(s.subrange(p + 4, p + 4 + u32_at(s, p))),
                        p + 4 + u32_at(s, p),
                    ),
                )
            },
            15 => fixed_object(s, pos, 1, ObjectView::NotImplemented),
            16 => short_array(s, pos, 1, ObjectView::BooleanArray(bools_at(s, p + 2, n))),
            17 => fixed_object(s, pos, 4, ObjectView::NotImplemented),
            18 => short_array(s, pos, 8, ObjectView::Vec2Array(vec2s_at(s, p + 2, n))),
            19 => fixed_object(s, pos, 8, ObjectView::Vec2(vec2_at(s, p))),
            20 => fixed_object(s, pos, 1, ObjectView::NotImplemented),
            21 => short_array(s, pos, 4, ObjectView::NotImplemented),
            22 => if p + 2 > s.len() {
                Err(PacketError::UnexpectedEnd)
            } else {
                match skip_objects(s, p + 2, n) {
                    Err(e) => Err(e),
                    Ok(q) => Ok((ObjectView::NotImplemented, q)),
                }
            },
            23 => fixed_object(s, pos, 1, ObjectView::NotImplemented),
            _ => Err(PacketError::UnknownObjectTag),
        }
    }
}

/// The offset behind `n` tagged objects that stand one behind the other from
/// `pos`.
pub open spec fn skip_objects(s: Seq<u8>, pos: int, n: nat) -> Result<int, PacketError>
    decreases s.len() - pos, n,
{
    if n == 0 {
        Ok(pos)
    } else {
        match parse_object(s, pos) {
            Err(e) => Err(e),
            Ok((_, q)) => if q < pos || q > s.len() {
                Err(PacketError::UnexpectedEnd)
            } else {
                skip_objects(s, q, (n - 1) as nat)
            },
        }
    }
}

/// Reads one tagged object.
pub fn read_object(reader: &mut Reader) -> (r: Result<Object, PacketError>)
    requires
        old(reader).wf(),
    ensures
        decoded(
            r,
            old(reader),
            final(reader),
            parse_object(old(reader).data(), old(reader).position()),
        ),
    decreases old(reader).left(),
{
    reader.need(1)?;
    let object_type = reader.byte();
    match object_type {
        0 => Ok(Object::Null),
        1 => {
            reader.need(4)?;
            Ok(Object::Int(reader.int32()))
        },
        2 => {
            reader.need(8)?;
            Ok(Object::Long(reader.long()))
        },
        3 => {
            reader.need(4)?;
            Ok(Object::Float(reader.float()))
        },
        4 => Ok(Object::String(read_prefixed_string(reader))),
        5 | 9 => {
            reader.need(3)?;
            reader.byte();
            reader.short();
            Ok(Object::NotImplemented)
        },
        6 => {
            reader.need(2)?;
            let length = reader.short();
            let n: usize = if length < 0 {
                0
            } else {
                length as usize
            };
            reader.need(4 * n)?;
            Ok(Object::IntSequence(read_ints(reader, n)))
        },
        7 => {
            reader.need(4)?;
            Ok(Object::Point2(Point2::unpack(reader.int32())))
        },
        8 => {
            reader.need(1)?;
            let n: usize = reader.byte() as usize;
            reader.need(4 * n)?;
            Ok(Object::Point2Array(read_point2s(reader, n)))
        },
        10 => {
            reader.need(1)?;
            Ok(Object::Boolean(reader.bool()))
        },
        11 => {
            reader.need(8)?;
            Ok(Object::Double(reader.double()))
        },
        12 | 17 => {
            reader.need(4)?;
            reader.int32();
            Ok(Object::NotImplemented)
        },
        13 => {
            reader.need(2)?;
            reader.short();
            Ok(Object::NotImplemented)
        },
        14 => {
            reader.need(4)?;
            let n: usize = reader.int32() as usize;
            reader.need(n)?;
            Ok(Object::ByteArray(reader.bytes(n)))
        },
        15 | 20 | 23 => {
            reader.need(1)?;
            reader.byte();
            Ok(Object::NotImplemented)
        },
        16 => {
            reader.need(2)?;
            let length = reader.short();
            let n: usize = if length < 0 {
                0
            } else {
                length as usize
            };
            reader.need(n)?;
            Ok(Object::BooleanArray(read_bools(reader, n)))
        },
        18 => {
            reader.need(2)?;
            let length = reader.short();
            let n: usize = if length < 0 {
                0
            } else {
                length as usize
            };
            reader.need(8 * n)?;
            Ok(Object::Vec2Array(read_vec2s(reader, n)))
        },
        19 => {
            reader.need(8)?;
            Ok(Object::Vec2(read_vec2(reader)))
        },
        21 => {
            reader.need(2)?;
            let length = reader.short();
            let n: usize = if length < 0 {
                0
            } else {
                length as usize
            };
            reader.need(4 * n)?;
            read_ints(reader, n);
            Ok(Object::NotImplemented)
        },
        22 => {
            reader.need(2)?;
            let length = reader.short();
            let n: usize = if length < 0 {
                0
            } else {
                length as usize
            };
            let ghost s = reader.data();
            let ghost start = reader.position();
            let mut i: usize = 0;
            while i < n
                invariant
                    i <= n,
                    reader.kept(old(reader)),
                    reader.left() < old(reader).left(),
                    s == old(reader).data(),
                    parse_object(s, old(reader).position()) == match skip_objects(
                        s,
                        start,
                        n as nat,
                    ) {
                        Err(e) => Err::<(ObjectView, int), PacketError>(e),
                        Ok(q) => Ok((ObjectView::NotImplemented, q)),
                    },
                    skip_objects(s, start, n as nat) == skip_objects(
                        s,
                        reader.position(),
                        (n - i) as nat,
                    ),
                decreases n - i,
            {
                match read_object(reader) {
                    Err(e) => {
                        return Err(e);
                    },
                    Ok(_) => {},
                }
                i += 1;
            }
            Ok(Object::NotImplemented)
        },
        _ => Err(PacketError::UnknownObjectTag),
    }
}

/// Reads one tagged object. Boxed and plain values travel alike.
pub fn read_object_boxed(reader: &mut Reader, box_: bool) -> (r: Result<Object, PacketError>)
    requires
        old(reader).wf(),
    ensures
        decoded(
            r,
            old(reader),
            final(reader),
            parse_object(old(reader).data(), old(reader).position()),
        ),
{
    read_object(reader)
}

/// The bytes of a run of unsigned 32-bit numbers.
pub open spec fn u32s_bytes(v: Seq<u32>) -> Seq<u8>
    decreases v.len(),
{
    if v.len() == 0 {
        Seq::empty()
    } else {
        u32s_bytes(v.drop_last()) + be32(v.last())
    }
}

/// The bytes of a run of packed points.
pub open spec fn point2s_bytes(v: Seq<Point2>) -> Seq<u8>
    decreases v.len(),
{
    if v.len() == 0 {
        Seq::empty()
    } else {
        point2s_bytes(v.drop_last()) + be32(packed_word(v.last().x, v.last().y) as u32)
    }
}

/// The bytes of a run of booleans.
pub open spec fn bools_bytes(v: Seq<bool>) -> Seq<u8>
    decreases v.len(),
{
    if v.len() == 0 {
        Seq::empty()
    } else {
        bools_bytes(v.drop_last()).push(bool_byte(v.last()))
    }
}

/// The bytes of a pair of 32-bit IEEE-754 numbers.
pub open spec fn vec2_bytes(v: Vec2) -> Seq<u8> {
    be32(v.x.bits) + be32(v.y.bits)
}

/// The bytes of a run of pairs of 32-bit IEEE-754 numbers.
pub open spec fn vec2s_bytes(v: Seq<Vec2>) -> Seq<u8>
    decreases v.len(),
{
    if v.len() == 0 {
        Seq::empty()
    } else {
        vec2s_bytes(v.drop_last()) + vec2_bytes(v.last())
    }
}

/// The text of an optional string; an absent one is written as the empty text.
pub open spec fn text_of(t: Option<Seq<char>>) -> Seq<char> {
    match t {
        Some(text) => text,
        None => Seq::empty(),
    }
}

/// The bytes of a tagged object: its tag, then its payload. `None` where a
/// count or a text does not fit its length prefix. The two kinds without a
/// wire form of their own are written as nothing at all.
pub open spec fn object_bytes(o: ObjectView) -> Option<Seq<u8>> {
    match o {
        ObjectView::Null => Some(seq![0u8]),
        ObjectView::Int(v) => Some(seq![1u8] + be32(v)),
        ObjectView::Long(v) => Some(seq![2u8] + be64(v)),
        ObjectView::Float(v) => Some(seq![3u8] + be32(v.bits)),
        ObjectView::String(t) => if string_fits(text_of(t)) {
            Some(seq![4u8] + prefixed_string_bytes(text_of(t)))
        } else {
            None
        },
        ObjectView::IntSequence(v) => if v.len() > 32767 {
            None
        } else {
            Some(seq![6u8] + be16(v.len() as u16) + u32s_bytes(v))
        },
        ObjectView::Point2(v) => Some(seq![7u8] + be32(packed_word(v.x, v.y) as u32)),
        ObjectView::Point2Array(v) => if v.len() > 255 {
            None
        } else {
            Some(seq![8u8, v.len() as u8] + point2s_bytes(v))
        },
        ObjectView::Boolean(v) => Some(seq![10u8, bool_byte(v)]),
        ObjectView::Double(v) => Some(seq![11u8] + be64(v.bits)),
        ObjectView::ByteArray(v) => if v.len() > 4294967295 {
            None
        } else {
            Some(seq![14u8] + be32(v.len() as u32) + v)
        },
        ObjectView::BooleanArray(v) => if v.len() > 32767 {
            None
        } else {
            Some(seq![16u8] + be16(v.len() as u16) + bools_bytes(v))
        },
        ObjectView::Vec2Array(v) => if v.len() > 32767 {
            None
        } else {
            Some(seq![18u8] + be16(v.len() as u16) + vec2s_bytes(v))
        },
        ObjectView::Vec2(v) => Some(seq![19u8] + vec2_bytes(v)),
        ObjectView::Unknown => Some(Seq::empty()),
        ObjectView::NotImplemented => Some(Seq::empty()),
    }
}

/// What a writer returned and what it appended, held against the bytes that
/// the value has or the reason why it has none: all of the bytes on success,
/// nothing and that reason on refusal.
pub open spec fn written(
    r: Result<(), PacketError>,
    before: Seq<u8>,
    after: Seq<u8>,
    want: Result<Seq<u8>, PacketError>,
) -> bool {
    match want {
        Ok(bytes) => r is Ok && after == before + bytes,
        Err(e) => r == Err::<(), PacketError>(e) && after == before,
    }
}

/// What a writer returned and what it appended, held against the bytes that
/// the value has: all of them on success, nothing on refusal.
pub open spec fn encoded(
    r: Result<(), PacketError>,
    before: Seq<u8>,
    after: Seq<u8>,
    want: Option<Seq<u8>>,
) -> bool {
    match want {
        Some(bytes) => r is Ok && after == before + bytes,
        None => r == Err::<(), PacketError>(PacketError::EncodingTooLong) && after == before,
    }
}

/// Writes one tagged object: the tag and the payload, or neither.
#[verifier::rlimit(40)]
pub fn write_object(buf: &mut Vec<u8>, object: &Object) -> (r: Result<(), PacketError>)
    ensures
        encoded(r, old(buf)@, final(buf)@, object_bytes(object.deep_view())),
{
    match object {
        Object::Null => {
            write_byte(buf, 0u8);
            assert(buf@ == old(buf)@ + seq![0u8]);
        },
        Object::Int(value) => {
            let value = *value;
            write_byte(buf, 1u8);
            write_int(buf, value);
            assert(buf@ == old(buf)@ + (seq![1u8] + be32(value)));
        },
        Object::Long(value) => {
            let value = *value;
            write_byte(buf, 2u8);
            write_long(buf, value);
            assert(buf@ == old(buf)@ + (seq![2u8] + be64(value)));
        },
        Object::Float(value) => {
            let value = *value;
            write_byte(buf, 3u8);
            write_float(buf, value);
            assert(buf@ == old(buf)@ + (seq![3u8] + be32(value.bits)));
        },
        Object::String(value) => {
            match value {
                Some(text) => {
                    let shown = text.as_str();
                    if shown.as_bytes().len() > 65535 {
                        return Err(PacketError::EncodingTooLong);
                    }
                    write_byte(buf, 4u8);
                    let done = write_string(buf, shown);
                    assert(buf@ == old(buf)@ + (seq![4u8] + prefixed_string_bytes(text@)));
                },
                None => {
                    assert(encode_utf8(Seq::<char>::empty()) =~= Seq::<u8>::empty());
                    write_byte(buf, 4u8);
                    write_byte(buf, 0u8);
                    assert(buf@ == old(buf)@ + (seq![4u8] + prefixed_string_bytes(
                        Seq::<char>::empty(),
                    )));
                },
            }
        },
        Object::IntSequence(values) => {
            if values.len() > 32767 {
                return Err(PacketError::EncodingTooLong);
            }
            write_byte(buf, 6u8);
            write_unsigned_short(buf, values.len() as u16);
            let ghost head = buf@;
            let mut i: usize = 0;
            while i < values.len()
                invariant
                    i <= values.len(),
                    buf@ == head + u32s_bytes(values@.subrange(0, i as int)),
                decreases values.len() - i,
            {
                write_int(buf, values[i]);
                i += 1;
                assert(values@.subrange(0, i as int).drop_last() == values@.subrange(0, i - 1));
                assert(buf@ == head + u32s_bytes(values@.subrange(0, i as int)));
            }
            assert(values@.subrange(0, i as int) == values@);
            assert(buf@ == old(buf)@ + (seq![6u8] + be16(values@.len() as u16) + u32s_bytes(
                values@,
            )));
        },
        Object::Point2(value) => {
            let value = *value;
            write_byte(buf, 7u8);
            write_int(buf, value.pack_unsigned());
            assert(buf@ == old(buf)@ + (seq![7u8] + be32(packed_word(value.x, value.y) as u32)));
        },
        Object::Point2Array(values) => {
            if values.len() > 255 {
                return Err(PacketError::EncodingTooLong);
            }
            write_byte(buf, 8u8);
            write_byte(buf, values.len() as u8);
            let ghost head = buf@;
            let mut i: usize = 0;
            while i < values.len()
                invariant
                    i <= values.len(),
                    buf@ == head + point2s_bytes(values@.subrange(0, i as int)),
                decreases values.len() - i,
            {
                write_int(buf, values[i].pack_unsigned());
                i += 1;
                assert(values@.subrange(0, i as int).drop_last() == values@.subrange(0, i - 1));
                assert(buf@ == head + point2s_bytes(values@.subrange(0, i as int)));
            }
            assert(values@.subrange(0, i as int) == values@);
            assert(buf@ == old(buf)@ + (seq![8u8, values@.len() as u8] + point2s_bytes(values@)));
        },
        Object::Boolean(value) => {
            let value = *value;
            write_byte(buf, 10u8);
            write_bool(buf, value);
            assert(buf@ == old(buf)@ + seq![10u8, bool_byte(value)]);
        },
        Object::Double(value) => {
            let value = *value;
            write_byte(buf, 11u8);
            write_double(buf, value);
            assert(buf@ == old(buf)@ + (seq![11u8] + be64(value.bits)));
        },
        Object::ByteArray(values) => {
            if values.len() > 4294967295 {
                return Err(PacketError::EncodingTooLong);
            }
            write_byte(buf, 14u8);
            write_int(buf, values.len() as u32);
            write_bytes(buf, values.as_slice());
            assert(buf@ == old(buf)@ + (seq![14u8] + be32(values@.len() as u32) + values@));
        },
        Object::BooleanArray(values) => {
            if values.len() > 32767 {
                return Err(PacketError::EncodingTooLong);
            }
            write_byte(buf, 16u8);
            write_unsigned_short(buf, values.len() as u16);
            let ghost head = buf@;
            let mut i: usize = 0;
            while i < values.len()
                invariant
                    i <= values.len(),
                    buf@ == head + bools_bytes(values@.subrange(0, i as int)),
                decreases values.len() - i,
            {
                write_bool(buf, values[i]);
                i += 1;
                assert(values@.subrange(0, i as int).drop_last() == values@.subrange(0, i - 1));
                assert(buf@ == head + bools_bytes(values@.subrange(0, i as int)));
            }
            assert(values@.subrange(0, i as int) == values@);
            assert(buf@ == old(buf)@ + (seq![16u8] + be16(values@.len() as u16) + bools_bytes(
                values@,
            )));
        },
        Object::Vec2Array(values) => {
            if values.len() > 32767 {
                return Err(PacketError::EncodingTooLong);
            }
            write_byte(buf, 18u8);
            write_unsigned_short(buf, values.len() as u16);
            let ghost head = buf@;
            let mut i: usize = 0;
            while i < values.len()
                invariant
                    i <= values.len(),
                    buf@ == head + vec2s_bytes(values@.subrange(0, i as int)),
                decreases values.len() - i,
            {
                write_float(buf, values[i].x);
                write_float(buf, values[i].y);
                i += 1;
                assert(values@.subrange(0, i as int).drop_last() == values@.subrange(0, i - 1));
                assert(buf@ == head + vec2s_bytes(values@.subrange(0, i as int)));
            }
            assert(values@.subrange(0, i as int) == values@);
            assert(buf@ == old(buf)@ + (seq![18u8] + be16(values@.len() as u16) + vec2s_bytes(
                values@,
            )));
        },
        Object::Vec2(value) => {
            let value = *value;
            write_byte(buf, 19u8);
            write_float(buf, value.x);
            write_float(buf, value.y);
            assert(buf@ == old(buf)@ + (seq![19u8] + vec2_bytes(value)));
        },
        Object::NotImplemented => {
            assert(buf@ == old(buf)@ + Seq::<u8>::empty());
        },
        Object::Unknown => {
            assert(buf@ == old(buf)@ + Seq::<u8>::empty());
        },
    }
    Ok(())
}

/// A run of numbers read from the wire is written as the bytes it was read from.
pub proof fn lemma_u32s_bytes(s: Seq<u8>, pos: int, n: nat)
    requires
        0 <= pos,
        pos + 4 * n <= s.len(),
    ensures
        u32s_bytes(u32s_at(s, pos, n)) == s.subrange(pos, pos + 4 * n),
    decreases n,
{
    if n == 0 {
        assert(s.subrange(pos, pos) =~= Seq::<u8>::empty());
    } else {
        let m = (n - 1) as nat;
        lemma_u32s_bytes(s, pos, m);
        assert(u32s_at(s, pos, n).drop_last() =~= u32s_at(s, pos, m));
        lemma_u32_bytes(s, pos + 4 * m);
        assert(s.subrange(pos, pos + 4 * m) + s.subrange(pos + 4 * m, pos + 4 * n) =~= s.subrange(
            pos,
            pos + 4 * n,
        ));
    }
}

/// A run of points read from the wire is written as the bytes it was read from.
pub proof fn lemma_point2s_bytes(s: Seq<u8>, pos: int, n: nat)
    requires
        0 <= pos,
        pos + 4 * n <= s.len(),
    ensures
        point2s_bytes(point2s_at(s, pos, n)) == s.subrange(pos, pos + 4 * n),
    decreases n,
{
    if n == 0 {
        assert(s.subrange(pos, pos) =~= Seq::<u8>::empty());
    } else {
        let m = (n - 1) as nat;
        lemma_point2s_bytes(s, pos, m);
        assert(point2s_at(s, pos, n).drop_last() =~= point2s_at(s, pos, m));
        lemma_u32_bytes(s, pos + 4 * m);
        lemma_pack_unpack(u32_at(s, pos + 4 * m));
        assert(s.subrange(pos, pos + 4 * m) + s.subrange(pos + 4 * m, pos + 4 * n) =~= s.subrange(
            pos,
            pos + 4 * n,
        ));
    }
}

/// A run of booleans read from bytes that are all zero or one is written as
/// those bytes.
pub proof fn lemma_bools_bytes(s: Seq<u8>, pos: int, n: nat)
    requires
        0 <= pos,
        pos + n <= s.len(),
        forall|j: int| pos <= j < pos + n ==> #[trigger] s[j] <= 1,
    ensures
        bools_bytes(bools_at(s, pos, n)) == s.subrange(pos, pos + n),
    decreases n,
{
    if n == 0 {
        assert(s.subrange(pos, pos) =~= Seq::<u8>::empty());
    } else {
        let m = (n - 1) as nat;
        lemma_bools_bytes(s, pos, m);
        assert(bools_at(s, pos, n).drop_last() =~= bools_at(s, pos, m));
        assert(s[pos + m] <= 1);
        assert(s.subrange(pos, pos + m).push(s[pos + m]) =~= s.subrange(pos, pos + n));
    }
}

/// A pair read from the wire is written as the bytes it was read from.
pub proof fn lemma_vec2_bytes(s: Seq<u8>, pos: int)
    requires
        0 <= pos,
        pos + 8 <= s.len(),
    ensures
        vec2_bytes(vec2_at(s, pos)) == s.subrange(pos, pos + 8),
{
    lemma_u32_bytes(s, pos);
    lemma_u32_bytes(s, pos + 4);
    assert(s.subrange(pos, pos + 4) + s.subrange(pos + 4, pos + 8) =~= s.subrange(pos, pos + 8));
}

/// A run of pairs read from the wire is written as the bytes it was read from.
pub proof fn lemma_vec2s_bytes(s: Seq<u8>, pos: int, n: nat)
    requires
        0 <= pos,
        pos + 8 * n <= s.len(),
    ensures
        vec2s_bytes(vec2s_at(s, pos, n)) == s.subrange(pos, pos + 8 * n),
    decreases n,
{
    if n == 0 {
        assert(s.subrange(pos, pos) =~= Seq::<u8>::empty());
    } else {
        let m = (n - 1) as nat;
        lemma_vec2s_bytes(s, pos, m);
        assert(vec2s_at(s, pos, n).drop_last() =~= vec2s_at(s, pos, m));
        lemma_vec2_bytes(s, pos + 8 * m);
        assert(s.subrange(pos, pos + 8 * m) + s.subrange(pos + 8 * m, pos + 8 * n) =~= s.subrange(
            pos,
            pos + 8 * n,
        ));
    }
}

/// Whether the tagged-optional string at `p` has the form in which the
/// writer puts it: absent as a lone zero, present as one, a length that is
/// not zero, and valid UTF-8 that is all there.
pub open spec fn canonical_string(s: Seq<u8>, p: int) -> bool {
    &&& p < s.len()
    &&& s[p] == 0 || {
        &&& s[p] == 1
        &&& p + 3 <= s.len()
        &&& u16_at(s, p + 1) > 0
        &&& p + 3 + u16_at(s, p + 1) <= s.len()
        &&& valid_utf8(s.subrange(p + 3, p + 3 + u16_at(s, p + 1)))
    }
}

/// Whether the tagged object at `pos` has the form in which the writer puts
/// objects: a tag that it writes, every boolean as zero or one, no negative
/// count, and a string in canonical form.
pub open spec fn canonical_object(s: Seq<u8>, pos: int) -> bool {
    let p = pos + 1;
    let tag = s[pos];
    if tag == 0 || tag == 1 || tag == 2 || tag == 3 || tag == 7 || tag == 8 || tag == 11 || tag
        == 14 || tag == 19 {
        true
    } else if tag == 4 {
        canonical_string(s, p)
    } else if tag == 6 || tag == 18 {
        i16_at(s, p) >= 0
    } else if tag == 10 {
        s[p] <= 1
    } else if tag == 16 {
        i16_at(
            s,
            p,
        ) >= 0 && forall|j: int| p + 2 <= j < p + 2 + i16_at(s, p) ==> #[trigger] s[j] <= 1
    } else {
        false
    }
}

proof fn lemma_round_trip_fixed(s: Seq<u8>, pos: int)
    requires
        parse_object(s, pos) is Ok,
        canonical_object(s, pos),
        s[pos] <= 3 || s[pos] == 7 || s[pos] == 10 || s[pos] == 11 || s[pos] == 19,
    ensures
        object_bytes(parse_object(s, pos)->Ok_0.0) == Some(
            s.subrange(pos, parse_object(s, pos)->Ok_0.1),
        ),
{
    let p = pos + 1;
    let tag = s[pos];
    let next = parse_object(s, pos)->Ok_0.1;
    assert(seq![tag] + s.subrange(p, next) =~= s.subrange(pos, next));
    if tag == 0 {
        assert(seq![0u8] =~= s.subrange(pos, next));
    } else if tag == 1 || tag == 3 {
        lemma_u32_bytes(s, p);
    } else if tag == 2 || tag == 11 {
        lemma_u64_bytes(s, p);
    } else if tag == 7 {
        lemma_u32_bytes(s, p);
        lemma_pack_unpack(u32_at(s, p));
    } else if tag == 10 {
        assert(seq![10u8, s[p]] =~= s.subrange(pos, next));
    } else {
        lemma_vec2_bytes(s, p);
    }
}

proof fn lemma_round_trip_string(s: Seq<u8>, pos: int)
    requires
        parse_object(s, pos) is Ok,
        canonical_object(s, pos),
        s[pos] == 4,
    ensures
        object_bytes(parse_object(s, pos)->Ok_0.0) == Some(
            s.subrange(pos, parse_object(s, pos)->Ok_0.1),
        ),
{
    let p = pos + 1;
    let next = parse_object(s, pos)->Ok_0.1;
    if s[p] == 0 {
        assert(encode_utf8(Seq::<char>::empty()) =~= Seq::<u8>::empty());
        assert(seq![4u8] + seq![0u8] =~= s.subrange(pos, next));
    } else {
        let len = u16_at(s, p + 1);
        let bytes = s.subrange(p + 3, p + 3 + len);
        decode_utf8_encode_utf8(bytes);
        let text = decode_utf8(bytes);
        assert(encode_utf8(text) == bytes);
        assert(text.len() > 0) by {
            if text.len() == 0 {
                assert(encode_utf8(text) =~= Seq::<u8>::empty());
            }
        }
        lemma_u16_bytes(s, p + 1);
        assert(be16(bytes.len() as u16) == s.subrange(p + 1, p + 3));
        assert(prefixed_string_bytes(text) == seq![1u8] + s.subrange(p + 1, p + 3) + bytes);
        assert(seq![4u8] + (seq![1u8] + s.subrange(p + 1, p + 3) + bytes) =~= s.subrange(
            pos,
            next,
        ));
    }
}

proof fn lemma_round_trip_array(s: Seq<u8>, pos: int)
    requires
        parse_object(s, pos) is Ok,
        canonical_object(s, pos),
        s[pos] == 6 || s[pos] == 8 || s[pos] == 14 || s[pos] == 16 || s[pos] == 18,
    ensures
        object_bytes(parse_object(s, pos)->Ok_0.0) == Some(
            s.subrange(pos, parse_object(s, pos)->Ok_0.1),
        ),
{
    let p = pos + 1;
    let tag = s[pos];
    let next = parse_object(s, pos)->Ok_0.1;
    let n = count_of(i16_at(s, p) as int);
    if tag == 8 {
        lemma_point2s_bytes(s, p + 1, s[p] as nat);
        assert(seq![8u8, s[p]] + s.subrange(p + 1, next) =~= s.subrange(pos, next));
    } else if tag == 14 {
        lemma_u32_bytes(s, p);
        assert(seq![14u8] + s.subrange(p, p + 4) + s.subrange(p + 4, next) =~= s.subrange(
            pos,
            next,
        ));
    } else {
        lemma_u16_bytes(s, p);
        assert(be16(n as u16) == s.subrange(p, p + 2));
        assert(seq![tag] + s.subrange(p, p + 2) + s.subrange(p + 2, next) =~= s.subrange(
            pos,
            next,
        ));
        if tag == 6 {
            lemma_u32s_bytes(s, p + 2, n);
        } else if tag == 16 {
            lemma_bools_bytes(s, p + 2, n);
        } else {
            lemma_vec2s_bytes(s, p + 2, n);
        }
    }
}

/// Decoding a tagged object and writing the result gives back the very bytes
/// that were decoded, for every buffer and every offset at which an object in
/// the writer's own form stands.
pub proof fn lemma_object_round_trip(s: Seq<u8>, pos: int)
    requires
        parse_object(s, pos) is Ok,
        canonical_object(s, pos),
    ensures
        object_bytes(parse_object(s, pos)->Ok_0.0) == Some(
            s.subrange(pos, parse_object(s, pos)->Ok_0.1),
        ),
{
    let tag = s[pos];
    if tag == 4 {
        lemma_round_trip_string(s, pos);
    } else if tag == 6 || tag == 8 || tag == 14 || tag == 16 || tag == 18 {
        lemma_round_trip_array(s, pos);
    } else {
        lemma_round_trip_fixed(s, pos);
    }
}

/// One entry of a string map: a name and the text under it, if any.
#[derive(Debug, Clone)]
pub struct StringPair {
    pub key: String,
    pub value: Option<String>,
}

impl DeepView for StringPair {
    type V = (Seq<char>, Option<Seq<char>>);

    open spec fn deep_view(&self) -> (Seq<char>, Option<Seq<char>>) {
        (self.key@, self.value.deep_view())
    }
}

/// One entry of a string map from `pos`: two length-prefixed strings, of
/// which the first must be there.
pub open spec fn parse_string_pair(s: Seq<u8>, pos: int) -> Parsed<(Seq<char>, Option<Seq<char>>)> {
    if pos + 2 > s.len() {
        Err(PacketError::UnexpectedEnd)
    } else {
        match string_at(s, pos).0 {
            None => Err(PacketError::ProtocolError),
            Some(key) => if string_at(s, pos).1 + 2 > s.len() {
                Err(PacketError::UnexpectedEnd)
            } else {
                Ok(
                    (
                        (key, string_at(s, string_at(s, pos).1).0),
                        string_at(s, string_at(s, pos).1).1,
                    ),
                )
            },
        }
    }
}

/// The decoder of one entry of a string map, as a value.
pub open spec fn string_pair_item() -> spec_fn(Seq<u8>, int) -> Parsed<
    (Seq<char>, Option<Seq<char>>),
> {
    |s: Seq<u8>, p: int| parse_string_pair(s, p)
}

/// A string map from `pos`: a signed 16-bit count, then that many entries,
/// in the order in which they stand.
pub open spec fn parse_string_map(s: Seq<u8>, pos: int) -> Parsed<
    Seq<(Seq<char>, Option<Seq<char>>)>,
> {
    if pos + 2 > s.len() {
        Err(PacketError::UnexpectedEnd)
    } else {
        repeat(string_pair_item(), s, pos + 2, count_of(i16_at(s, pos) as int))
    }
}

fn read_string_pair(reader: &mut Reader) -> (r: Result<StringPair, PacketError>)
    requires
        old(reader).wf(),
    ensures
        decoded(
            r,
            old(reader),
            final(reader),
            parse_string_pair(old(reader).data(), old(reader).position()),
        ),
{
    reader.need(2)?;
    let key = match read_string(reader) {
        Some(key) => key,
        None => {
            return Err(PacketError::ProtocolError);
        },
    };
    reader.need(2)?;
    let value = read_string(reader);
    Ok(StringPair { key, value })
}

/// Reads a string map, entry by entry.
pub fn read_string_map(reader: &mut Reader) -> (r: Result<Vec<StringPair>, PacketError>)
    requires
        old(reader).wf(),
    ensures
        decoded(
            r,
            old(reader),
            final(reader),
            parse_string_map(old(reader).data(), old(reader).position()),
        ),
{
    reader.need(2)?;
    let size = reader.short();
    let count: usize = if size < 0 {
        0
    } else {
        size as usize
    };
    let ghost s = reader.data();
    let ghost start = reader.position();
    let mut data: Vec<StringPair> = Vec::new();
    let mut i: usize = 0;
    proof {
        lemma_deep_empty::<StringPair>();
    }
    while i < count
        invariant
            i <= count,
            reader.kept(old(reader)),
            s == old(reader).data(),
            start == old(reader).position() + 2,
            start <= s.len(),
            count == count_of(i16_at(s, start - 2) as int),
            repeat(string_pair_item(), s, start, i as nat) == Ok::<
                (Seq<(Seq<char>, Option<Seq<char>>)>, int),
                PacketError,
            >((deep(data@), reader.position())),
        decreases count - i,
    {
        match read_string_pair(reader) {
            Err(e) => {
                proof {
                    lemma_repeat_fails(string_pair_item(), s, start, (i + 1) as nat, count as nat);
                }
                return Err(e);
            },
            Ok(pair) => {
                proof {
                    lemma_deep_push(data@, pair);
                }
                data.push(pair);
            },
        }
        i += 1;
    }
    proof {
        lemma_deep_vec(data);
    }
    Ok(data)
}

/// A copy of a run of plain values.
pub fn copy_vec<T: Copy>(v: &Vec<T>) -> (r: Vec<T>)
    ensures
        r@ == v@,
{
    let mut r: Vec<T> = Vec::new();
    let mut i: usize = 0;
    while i < v.len()
        invariant
            i <= v.len(),
            r@ == v@.subrange(0, i as int),
        decreases v.len() - i,
    {
        r.push(v[i]);
        i += 1;
        assert(r@ =~= v@.subrange(0, i as int));
    }
    assert(v@.subrange(0, i as int) =~= v@);
    r
}

/// A copy of a tagged object.
pub fn copy_object(object: &Object) -> (r: Object)
    ensures
        r.deep_view() == object.deep_view(),
{
    match object {
        Object::Null => Object::Null,
        Object::Int(v) => Object::Int(*v),
        Object::Long(v) => Object::Long(*v),
        Object::Float(v) => Object::Float(*v),
        Object::String(v) => match v {
            Some(text) => Object::String(Some(text.clone())),
            None => Object::String(None),
        },
        Object::IntSequence(v) => Object::IntSequence(copy_vec(v)),
        Object::Point2(v) => Object::Point2(*v),
        Object::Point2Array(v) => Object::Point2Array(copy_vec(v)),
        Object::Boolean(v) => Object::Boolean(*v),
        Object::Double(v) => Object::Double(*v),
        Object::ByteArray(v) => Object::ByteArray(copy_vec(v)),
        Object::BooleanArray(v) => Object::BooleanArray(copy_vec(v)),
        Object::Vec2Array(v) => Object::Vec2Array(copy_vec(v)),
        Object::Vec2(v) => Object::Vec2(*v),
        Object::Unknown => Object::Unknown,
        Object::NotImplemented => Object::NotImplemented,
    }
}

} // verus!
