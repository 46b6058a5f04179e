//! Little-endian integers inside byte sequences.

use vstd::prelude::*;

verus! {

/// The 16-bit value stored little-endian in `s[off]` and `s[off + 1]`.
pub open spec fn u16_at(s: Seq<u8>, off: int) -> u16 {
    (s[off] as int + 0x100 * (s[off + 1] as int)) as u16
}

/// The 32-bit value stored little-endian in `s[off .. off + 4]`.
pub open spec fn u32_at(s: Seq<u8>, off: int) -> u32 {
    (s[off] as int + 0x100 * (s[off + 1] as int) + 0x1_0000 * (s[off + 2] as int) + 0x100_0000 * (
    s[off + 3] as int)) as u32
}

/// The 64-bit value stored little-endian in `s[off .. off + 8]`.
pub open spec fn u64_at(s: Seq<u8>, off: int) -> u64 {
    (u32_at(s, off) as int + 0x1_0000_0000 * (u32_at(s, off + 4) as int)) as u64
}

/// The weight of byte `k` of a little-endian integer, `256` to the power `k`,
/// for the positions of a 64-bit integer and the one after them.
pub open spec fn byte_weight(k: int) -> int {
    if k <= 0 {
        1
    } else if k == 1 {
        0x100
    } else if k == 2 {
        0x1_0000
    } else if k == 3 {
        0x100_0000
    } else if k == 4 {
        0x1_0000_0000
    } else if k == 5 {
        0x100_0000_0000
    } else if k == 6 {
        0x1_0000_0000_0000
    } else if k == 7 {
        0x100_0000_0000_0000
    } else {
        0x1_0000_0000_0000_0000
    }
}

/// Byte `k` of the little-endian form of `v`.
pub open spec fn le_byte(v: int, k: int) -> u8 {
    ((v / byte_weight(k)) % 0x100) as u8
}

/// `s` with the `width` bytes from `off` on replaced by the little-endian form
/// of `v`; every other byte is kept.
pub open spec fn with_le(s: Seq<u8>, off: int, width: int, v: int) -> Seq<u8> {
    Seq::new(
        s.len(),
        |i: int|
            if off <= i < off + width {
                le_byte(v, i - off)
            } else {
                s[i]
            },
    )
}

/// Reading back a 16-bit value from its own little-endian bytes gives the value.
pub proof fn lemma_u16_round_trip(s: Seq<u8>, off: int, v: u16)
    requires
        s[off] == le_byte(v as int, 0),
        s[off + 1] == le_byte(v as int, 1),
    ensures
        u16_at(s, off) == v,
{
}

/// Reading back a 32-bit value from its own little-endian bytes gives the value.
pub proof fn lemma_u32_round_trip(s: Seq<u8>, off: int, v: u32)
    requires
        forall|k: int| 0 <= k < 4 ==> s[off + k] == le_byte(v as int, k),
    ensures
        u32_at(s, off) == v,
{
    assert(s[off + 0] == le_byte(v as int, 0));
    assert(s[off + 1] == le_byte(v as int, 1));
    assert(s[off + 2] == le_byte(v as int, 2));
    assert(s[off + 3] == le_byte(v as int, 3));
}

/// Reading back a 64-bit value from its own little-endian bytes gives the value.
pub proof fn lemma_u64_round_trip(s: Seq<u8>, off: int, v: u64)
    requires
        forall|k: int| 0 <= k < 8 ==> s[off + k] == le_byte(v as int, k),
    ensures
        u64_at(s, off) == v,
{
    assert(s[off + 0] == le_byte(v as int, 0));
    assert(s[off + 1] == le_byte(v as int, 1));
    assert(s[off + 2] == le_byte(v as int, 2));
    assert(s[off + 3] == le_byte(v as int, 3));
    assert(s[off + 4 + 0] == le_byte(v as int, 4));
    assert(s[off + 4 + 1] == le_byte(v as int, 5));
    assert(s[off + 4 + 2] == le_byte(v as int, 6));
    assert(s[off + 4 + 3] == le_byte(v as int, 7));
    assert(v % 0x1_0000_0000 == (v % 0x100) + 0x100 * ((v / 0x100) % 0x100) + 0x1_0000 * ((v
        / 0x1_0000) % 0x100) + 0x100_0000 * ((v / 0x100_0000) % 0x100)) by (bit_vector);
    assert(v / 0x1_0000_0000 == ((v / 0x1_0000_0000) % 0x100) + 0x100 * ((v / 0x100_0000_0000)
        % 0x100) + 0x1_0000 * ((v / 0x1_0000_0000_0000) % 0x100) + 0x100_0000 * ((v
        / 0x100_0000_0000_0000) % 0x100)) by (bit_vector);
}

/// Reads the 16-bit little-endian value at `off`.
pub fn read_u16_le(s: &[u8], off: usize) -> (v: u16)
    requires
        off + 2 <= s.len(),
    ensures
        v == u16_at(s@, off as int),
{
    let b0: u16 = s[off] as u16;
    let b1: u16 = s[off + 1] as u16;
    b0 + b1 * 0x100
}

/// Reads the 32-bit little-endian value at `off`.
pub fn read_u32_le(s: &[u8], off: usize) -> (v: u32)
    requires
        off + 4 <= s.len(),
    ensures
        v == u32_at(s@, off as int),
{
    let b0: u32 = s[off] as u32;
    let b1: u32 = s[off + 1] as u32;
    let b2: u32 = s[off + 2] as u32;
    let b3: u32 = s[off + 3] as u32;
    b0 + b1 * 0x100 + b2 * 0x1_0000 + b3 * 0x100_0000
}

/// Reads the 64-bit little-endian value at `off`.
pub fn read_u64_le(s: &[u8], off: usize) -> (v: u64)
    requires
        off + 8 <= s.len(),
    ensures
        v == u64_at(s@, off as int),
{
    let lo: u64 = read_u32_le(s, off) as u64;
    let hi: u64 = read_u32_le(s, off + 4) as u64;
    lo + hi * 0x1_0000_0000
}

/// Overwrites `width` bytes of `buf` from `off` on with the little-endian form
/// of `v`, for a width of at most eight bytes.
pub fn write_le(buf: &mut Vec<u8>, off: usize, width: usize, v: u64)
    requires
        width <= 8,
        off + width <= old(buf).len(),
    ensures
        final(buf)@ == with_le(old(buf)@, off as int, width as int, v as int),
{
    let mut rest: u64 = v;
    let mut k: usize = 0;
    while k < width
        invariant
            k <= width <= 8,
            off + width <= buf.len(),
            buf.len() == old(buf).len(),
            rest as int == (v as int) / byte_weight(k as int),
            forall|i: int|
                0 <= i < buf.len() ==> buf@[i] == if off <= i < off + k {
                    le_byte(v as int, i - off)
                } else {
                    old(buf)@[i]
                },
        decreases width - k,
    {
        let b: u8 = (rest % 0x100) as u8;
        buf.set(off + k, b);
        assert(byte_weight(k as int + 1) == 0x100 * byte_weight(k as int));
        assert((v as int) / byte_weight(k as int + 1) == (v as int) / byte_weight(k as int)
            / 0x100) by {
            lemma_div_step(v as int, k as int);
        }
        rest = rest / 0x100;
        k = k + 1;
    }
    assert(buf@ =~= with_le(old(buf)@, off as int, width as int, v as int));
}

/// Dividing by the next weight is dividing by this one and then by 256.
proof fn lemma_div_step(v: int, k: int)
    requires
        0 <= v,
        0 <= k < 8,
    ensures
        v / (0x100 * byte_weight(k)) == v / byte_weight(k) / 0x100,
{
    vstd::arithmetic::div_mod::lemma_div_denominator(v, byte_weight(k), 0x100);
}

} // verus!
