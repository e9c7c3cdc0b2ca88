//! Little-endian integers in byte sequences.

use vstd::prelude::*;

use crate::types::error::ZclError;

verus! {

/// Namespace of the little-endian specification functions.
pub struct Le;

impl Le {
    /// The two bytes of `v`, low byte first.
    pub open spec fn u16(v: u16) -> Seq<u8> {
        seq![(v % 256) as u8, (v / 256) as u8]
    }

    /// The four bytes of `v`, low byte first.
    pub open spec fn u32(v: u32) -> Seq<u8> {
        seq![
            (v % 256) as u8,
            (v / 256 % 256) as u8,
            (v / 65536 % 256) as u8,
            (v / 16777216) as u8,
        ]
    }

    /// The integer whose low byte is `lo` and whose high byte is `hi`.
    pub open spec fn of2(lo: u8, hi: u8) -> u16 {
        (lo + 256 * hi) as u16
    }

    /// The integer with bytes `b0` to `b3`, lowest first.
    pub open spec fn of4(b0: u8, b1: u8, b2: u8, b3: u8) -> u32 {
        (b0 + 256 * b1 + 65536 * b2 + 16777216 * b3) as u32
    }

    /// The 16-bit integer that starts at index `at` of `s`.
    pub open spec fn u16_at(s: Seq<u8>, at: int) -> u16 {
        Self::of2(s[at], s[at + 1])
    }

    /// The 32-bit integer that starts at index `at` of `s`.
    pub open spec fn u32_at(s: Seq<u8>, at: int) -> u32 {
        Self::of4(s[at], s[at + 1], s[at + 2], s[at + 3])
    }

    /// Two's complement bits of `v`.
    pub open spec fn bits8(v: i8) -> u8 {
        (if v < 0 { v + 256 } else { v as int }) as u8
    }

    /// Two's complement bits of `v`.
    pub open spec fn bits16(v: i16) -> u16 {
        (if v < 0 { v + 65536 } else { v as int }) as u16
    }

    /// Two's complement bits of `v`.
    pub open spec fn bits32(v: i32) -> u32 {
        (if v < 0 { v + 4294967296 } else { v as int }) as u32
    }

    /// The signed integer with two's complement bits `raw`.
    pub open spec fn signed8(raw: u8) -> i8 {
        (if raw >= 128 { raw - 256 } else { raw as int }) as i8
    }

    /// The signed integer with two's complement bits `raw`.
    pub open spec fn signed16(raw: u16) -> i16 {
        (if raw >= 32768 { raw - 65536 } else { raw as int }) as i16
    }

    /// The signed integer with two's complement bits `raw`.
    pub open spec fn signed32(raw: u32) -> i32 {
        (if raw >= 2147483648 { raw - 4294967296 } else { raw as int }) as i32
    }

    /// The integer that `bytes` are in little-endian order.
    pub open spec fn value(bytes: Seq<u8>) -> nat
        decreases bytes.len(),
    {
        if bytes.len() == 0 {
            0
        } else {
            (bytes[0] + 256 * Self::value(bytes.skip(1))) as nat
        }
    }

    /// 256 to the power of `n`.
    pub open spec fn pow256(n: nat) -> nat
        decreases n,
    {
        if n == 0 {
            1
        } else {
            256 * Self::pow256((n - 1) as nat)
        }
    }

    /// The lowest `n` bytes of `v`, lowest first.
    pub open spec fn bytes(v: nat, n: nat) -> Seq<u8>
        decreases n,
    {
        if n == 0 {
            Seq::empty()
        } else {
            seq![(v % 256) as u8] + Self::bytes(v / 256, (n - 1) as nat)
        }
    }
}

/// Reading back what was encoded gives the same integer.
pub proof fn lemma_u16_round_trip(v: u16)
    ensures
        Le::u16(v).len() == 2,
        Le::u16_at(Le::u16(v), 0) == v,
{
}

/// Reading back what was encoded gives the same integer.
pub proof fn lemma_u32_round_trip(v: u32)
    ensures
        Le::u32(v).len() == 4,
        Le::u32_at(Le::u32(v), 0) == v,
{
}

/// Four bytes are the encoding of the integer that they are read as.
pub proof fn lemma_u32_bytes(b0: u8, b1: u8, b2: u8, b3: u8)
    ensures
        Le::u32(Le::of4(b0, b1, b2, b3)) == seq![b0, b1, b2, b3],
{
    let v = b0 + 256 * b1 + 65536 * b2 + 16777216 * b3;
    assert(v == Le::of4(b0, b1, b2, b3));
    assert(v / 256 == b1 + 256 * b2 + 65536 * b3);
    assert(v / 65536 == b2 + 256 * b3);
    assert(v / 16777216 == b3);
    assert(v % 256 == b0);
    assert((b1 + 256 * b2 + 65536 * b3) % 256 == b1);
    assert((b2 + 256 * b3) % 256 == b2);
}

/// Two's complement loses nothing.
pub proof fn lemma_signed16_round_trip(v: i16)
    ensures
        Le::signed16(Le::bits16(v)) == v,
{
}

pub fn low_byte(v: u16) -> (b: u8)
    ensures
        b == Le::u16(v)[0],
{
    (v % 256) as u8
}

pub fn high_byte(v: u16) -> (b: u8)
    ensures
        b == Le::u16(v)[1],
{
    (v / 256) as u8
}

pub fn u16_from_bytes(lo: u8, hi: u8) -> (v: u16)
    ensures
        v == Le::of2(lo, hi),
{
    lo as u16 + 256 * (hi as u16)
}

/// The 16-bit integer at `at`.
pub fn read_u16(data: &[u8], at: usize) -> (v: u16)
    requires
        at + 2 <= data@.len(),
    ensures
        v == Le::u16_at(data@, at as int),
{
    u16_from_bytes(data[at], data[at + 1])
}

/// The 32-bit integer at `at`.
pub fn read_u32(data: &[u8], at: usize) -> (v: u32)
    requires
        at + 4 <= data@.len(),
    ensures
        v == Le::u32_at(data@, at as int),
{
    data[at] as u32 + 256 * (data[at + 1] as u32) + 65536 * (data[at + 2] as u32) + 16777216 * (
    data[at + 3] as u32)
}

pub fn i8_bits(v: i8) -> (raw: u8)
    ensures
        raw == Le::bits8(v),
{
    if v < 0 {
        (v as i16 + 256) as u8
    } else {
        v as u8
    }
}

pub fn i16_bits(v: i16) -> (raw: u16)
    ensures
        raw == Le::bits16(v),
{
    if v < 0 {
        (v as i32 + 65536) as u16
    } else {
        v as u16
    }
}

pub fn i32_bits(v: i32) -> (raw: u32)
    ensures
        raw == Le::bits32(v),
{
    if v < 0 {
        (v as i64 + 4294967296) as u32
    } else {
        v as u32
    }
}

pub fn i8_from_bits(raw: u8) -> (v: i8)
    ensures
        v == Le::signed8(raw),
{
    if raw >= 128 {
        (raw as i16 - 256) as i8
    } else {
        raw as i8
    }
}

pub fn i16_from_bits(raw: u16) -> (v: i16)
    ensures
        v == Le::signed16(raw),
{
    if raw >= 32768 {
        (raw as i32 - 65536) as i16
    } else {
        raw as i16
    }
}

pub fn i32_from_bits(raw: u32) -> (v: i32)
    ensures
        v == Le::signed32(raw),
{
    if raw >= 2147483648 {
        (raw as i64 - 4294967296) as i32
    } else {
        raw as i32
    }
}

/// `after` is as long as `before`, and holds the same from position `n` on.
pub open spec fn same_from(before: Seq<u8>, after: Seq<u8>, n: int) -> bool {
    &&& after.len() == before.len()
    &&& forall|k: int| n <= k < before.len() ==> #[trigger] after[k] == before[k]
}

/// Store `val` at `pos` and return the position after it.
pub fn put_byte(buf: &mut [u8], pos: usize, val: u8) -> (r: Result<usize, ZclError>)
    ensures
        final(buf)@.len() == old(buf)@.len(),
        match r {
            Ok(next) => pos < old(buf)@.len() && next == pos + 1 && final(buf)@ == old(buf)@.update(pos as int, val) && final(buf)@.take(next as int) == old(buf)@.take(
                pos as int,
            ) + seq![val],
            Err(e) => pos >= old(buf)@.len() && e == ZclError::BufferTooSmall && final(buf)@ == old(buf)@,
        },
{
    if pos < buf.len() {
        buf[pos] = val;
        Ok(pos + 1)
    } else {
        Err(ZclError::BufferTooSmall)
    }
}

/// Store the two bytes of `val` at `pos` and return the position after them.
pub fn put_u16_le(buf: &mut [u8], pos: usize, val: u16) -> (r: Result<usize, ZclError>)
    ensures
        final(buf)@.len() == old(buf)@.len(),
        match r {
            Ok(next) => pos + 2 <= old(buf)@.len() && next == pos + 2 && final(buf)@ == old(buf)@.update(pos as int, Le::u16(val)[0]).update(pos + 1, Le::u16(val)[1]) && final(buf)@.take(next as int) == old(buf)@.take(pos as int) + Le::u16(val),
            Err(e) => pos + 2 > old(buf)@.len() && e == ZclError::BufferTooSmall && final(buf)@
                == old(buf)@,
        },
{
    if buf.len() >= 2 && pos <= buf.len() - 2 {
        buf[pos] = low_byte(val);
        buf[pos + 1] = high_byte(val);
        Ok(pos + 2)
    } else {
        Err(ZclError::BufferTooSmall)
    }
}

/// Copy `src` into `buf` at `pos`.
pub fn copy_at(buf: &mut [u8], pos: usize, src: &[u8])
    requires
        pos + src@.len() <= old(buf)@.len(),
    ensures
        final(buf)@ == old(buf)@.take(pos as int) + src@ + old(buf)@.skip(pos + src@.len()),
{
    let ghost before = buf@;
    let total: usize = buf.len();
    let mut i: usize = 0;
    while i < src.len()
        invariant
            i <= src@.len(),
            total == buf@.len(),
            pos + src@.len() <= total,
            buf@ == before.take(pos as int) + src@.take(i as int) + before.skip(pos + i),
            before.len() == buf@.len(),
        decreases src@.len() - i,
    {
        buf[pos + i] = src[i];
        i = i + 1;
        assert(buf@ =~= before.take(pos as int) + src@.take(i as int) + before.skip(pos + i));
    }
    assert(src@.take(i as int) =~= src@);
}

/// The number that `bytes` are, lowest byte first, is below 256 to the power of
/// their count.
pub proof fn lemma_le_value_bound(bytes: Seq<u8>)
    ensures
        Le::value(bytes) < Le::pow256(bytes.len()),
    decreases bytes.len(),
{
    if bytes.len() > 0 {
        lemma_le_value_bound(bytes.skip(1));
    }
}

pub proof fn lemma_pow256_small()
    ensures
        Le::pow256(0) == 1,
        Le::pow256(1) == 0x100,
        Le::pow256(2) == 0x1_0000,
        Le::pow256(3) == 0x100_0000,
        Le::pow256(4) == 0x1_0000_0000,
        Le::pow256(5) == 0x100_0000_0000,
        Le::pow256(6) == 0x1_0000_0000_0000,
        Le::pow256(7) == 0x100_0000_0000_0000,
        Le::pow256(8) == 0x1_0000_0000_0000_0000,
{
    reveal_with_fuel(Le::pow256, 9);
}

pub proof fn lemma_pow256_monotonic(a: nat, b: nat)
    requires
        a <= b,
    ensures
        0 < Le::pow256(a) <= Le::pow256(b),
    decreases b,
{
    if a < b {
        lemma_pow256_monotonic(a, (b - 1) as nat);
    } else if a > 0 {
        lemma_pow256_monotonic((a - 1) as nat, (a - 1) as nat);
    }
}

/// The integer that up to eight bytes are in little-endian order.
pub fn le_number(bytes: &[u8]) -> (v: u64)
    requires
        bytes@.len() <= 8,
    ensures
        v == Le::value(bytes@),
{
    let mut i: usize = bytes.len();
    let mut v: u64 = 0;
    while i > 0
        invariant
            i <= bytes@.len() <= 8,
            v == Le::value(bytes@.skip(i as int)),
        decreases i,
    {
        proof {
            lemma_pow256_small();
            lemma_le_value_bound(bytes@.skip(i - 1));
            lemma_pow256_monotonic((bytes@.len() - i + 1) as nat, 8);
            assert(bytes@.skip(i - 1).skip(1) =~= bytes@.skip(i as int));
        }
        i = i - 1;
        v = bytes[i] as u64 + 256 * v;
    }
    assert(bytes@.skip(0) =~= bytes@);
    v
}

/// Bytes of a number that fits them are that number.
pub proof fn lemma_bytes_round_trip(v: nat, n: nat)
    requires
        v < Le::pow256(n),
    ensures
        Le::bytes(v, n).len() == n,
        Le::value(Le::bytes(v, n)) == v,
    decreases n,
{
    if n > 0 {
        lemma_bytes_round_trip(v / 256, (n - 1) as nat);
        assert(Le::bytes(v, n).skip(1) =~= Le::bytes(v / 256, (n - 1) as nat));
    } else {
        assert(Le::pow256(0) == 1);
    }
}

proof fn lemma_bytes_len(v: nat, n: nat)
    ensures
        Le::bytes(v, n).len() == n,
    decreases n,
{
    if n > 0 {
        lemma_bytes_len(v / 256, (n - 1) as nat);
    }
}

/// The bytes of the number that `bytes` are, are `bytes`.
pub proof fn lemma_value_round_trip(bytes: Seq<u8>)
    ensures
        Le::bytes(Le::value(bytes), bytes.len()) == bytes,
    decreases bytes.len(),
{
    if bytes.len() > 0 {
        lemma_value_round_trip(bytes.skip(1));
        assert(Le::value(bytes) % 256 == bytes[0] as nat);
        assert(Le::value(bytes) / 256 == Le::value(bytes.skip(1)));
        assert(seq![bytes[0]] + bytes.skip(1) =~= bytes);
    } else {
        assert(bytes =~= Seq::empty());
    }
}

/// Store the lowest `n` bytes of `v` at the front of `buf`.
pub fn put_le(buf: &mut [u8], v: u64, n: usize)
    requires
        n <= old(buf)@.len(),
    ensures
        Le::bytes(v as nat, n as nat).len() == n,
        final(buf)@ == Le::bytes(v as nat, n as nat) + old(buf)@.skip(n as int),
{
    let ghost before = buf@;
    let mut rest: u64 = v;
    let mut i: usize = 0;
    proof {
        lemma_bytes_len(v as nat, n as nat);
    }
    while i < n
        invariant
            i <= n <= buf@.len(),
            buf@.len() == before.len(),
            Le::bytes(v as nat, n as nat).len() == n,
            buf@.take(i as int) + Le::bytes(rest as nat, (n - i) as nat) == Le::bytes(
                v as nat,
                n as nat,
            ),
            buf@.skip(i as int) == before.skip(i as int),
        decreases n - i,
    {
        let ghost prev = buf@;
        buf[i] = (rest % 256) as u8;
        proof {
            let tail = Le::bytes((rest / 256) as nat, (n - i - 1) as nat);
            assert(buf@.take(i + 1) + tail =~= prev.take(i as int) + (seq![(rest % 256) as u8]
                + tail));
            assert(buf@.skip(i + 1) =~= prev.skip(i as int).skip(1));
            assert(before.skip(i as int).skip(1) =~= before.skip(i + 1));
        }
        rest = rest / 256;
        i = i + 1;
    }
    assert(buf@ =~= buf@.take(n as int) + buf@.skip(n as int));
    assert(Le::bytes(rest as nat, 0) =~= Seq::empty());
    assert(buf@.take(n as int) =~= Le::bytes(v as nat, n as nat));
}

/// Append the two bytes of `v`, lowest first.
pub fn push_u16_le(out: &mut Vec<u8>, v: u16)
    ensures
        final(out)@ == old(out)@ + Le::u16(v),
{
    out.push(low_byte(v));
    out.push(high_byte(v));
    assert(out@ =~= old(out)@ + Le::u16(v));
}

/// Append the eight bytes of `v`, lowest first.
pub fn push_u64_le(out: &mut Vec<u8>, v: u64)
    ensures
        final(out)@ == old(out)@ + Le::bytes(v as nat, 8),
        Le::bytes(v as nat, 8).len() == 8,
{
    let mut raw: [u8; 8] = [0; 8];
    put_le(&mut raw, v, 8);
    assert(raw@ =~= Le::bytes(v as nat, 8));
    push_bytes(out, &raw);
}

/// Append all of `bytes`.
pub fn push_bytes(out: &mut Vec<u8>, bytes: &[u8])
    ensures
        final(out)@ == old(out)@ + bytes@,
{
    let mut i: usize = 0;
    while i < bytes.len()
        invariant
            i <= bytes@.len(),
            out@ == old(out)@ + bytes@.take(i as int),
        decreases bytes@.len() - i,
    {
        out.push(bytes[i]);
        assert(bytes@.take(i + 1) =~= bytes@.take(i as int).push(bytes@[i as int]));
        i = i + 1;
    }
    assert(bytes@.take(i as int) =~= bytes@);
}

} // verus!
