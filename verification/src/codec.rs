//! Little-endian wire codec: reading and writing fixed-width integers at
//! byte offsets, and the 4-byte padding rule used throughout the protocol.

use vstd::prelude::*;

verus! {

/// The value of the 16-bit little-endian integer stored at offset `i` of `b`.
pub open spec fn u16_le_at(b: Seq<u8>, i: int) -> int {
    b[i] + 0x100 * b[i + 1]
}

/// The value of the 32-bit little-endian integer stored at offset `i` of `b`.
pub open spec fn u32_le_at(b: Seq<u8>, i: int) -> int {
    b[i] + 0x100 * b[i + 1] + 0x10000 * b[i + 2] + 0x1000000 * b[i + 3]
}

/// The two little-endian bytes of a 16-bit value.
pub open spec fn u16_le_bytes(x: int) -> Seq<u8> {
    seq![(x % 0x100) as u8, ((x / 0x100) % 0x100) as u8]
}

/// The four little-endian bytes of a 32-bit value.
pub open spec fn u32_le_bytes(x: int) -> Seq<u8> {
    seq![
        (x % 0x100) as u8,
        ((x / 0x100) % 0x100) as u8,
        ((x / 0x10000) % 0x100) as u8,
        ((x / 0x1000000) % 0x100) as u8,
    ]
}

/// Reads the 16-bit little-endian integer at offset `off`.
pub fn read_u16_le(b: &[u8], off: usize) -> (r: u16)
    requires
        off + 2 <= b@.len(),
    ensures
        r == u16_le_at(b@, off as int),
{
    let lo = b[off] as u16;
    let hi = b[off + 1] as u16;
    lo + 0x100 * hi
}

/// Reads the 32-bit little-endian integer at offset `off`.
pub fn read_u32_le(b: &[u8], off: usize) -> (r: u32)
    requires
        off + 4 <= b@.len(),
    ensures
        r == u32_le_at(b@, off as int),
{
    let b0 = b[off] as u32;
    let b1 = b[off + 1] as u32;
    let b2 = b[off + 2] as u32;
    let b3 = b[off + 3] as u32;
    b0 + 0x100 * b1 + 0x10000 * b2 + 0x1000000 * b3
}

/// Appends the two little-endian bytes of `x` to `out`.
pub fn write_u16_le(out: &mut Vec<u8>, x: u16)
    ensures
        final(out)@ == old(out)@ + u16_le_bytes(x as int),
{
    out.push((x % 0x100) as u8);
    out.push(((x / 0x100) % 0x100) as u8);
    assert(out@ =~= old(out)@ + u16_le_bytes(x as int));
}

/// Appends the four little-endian bytes of `x` to `out`.
pub fn write_u32_le(out: &mut Vec<u8>, x: u32)
    ensures
        final(out)@ == old(out)@ + u32_le_bytes(x as int),
{
    out.push((x % 0x100) as u8);
    out.push(((x / 0x100) % 0x100) as u8);
    out.push(((x / 0x10000) % 0x100) as u8);
    out.push(((x / 0x1000000) % 0x100) as u8);
    assert(out@ =~= old(out)@ + u32_le_bytes(x as int));
}

/// Number of padding bytes that bring `n` up to a multiple of 4.
pub open spec fn spec_pad(n: int) -> int {
    (4 - (n % 4)) % 4
}

/// Pads the given number `n`: how many bytes must follow a field of `n` bytes
/// so that the whole record stays 4-byte aligned.
pub fn pad(n: usize) -> (r: usize)
    ensures
        r == spec_pad(n as int),
        r < 4,
        (n + r) % 4 == 0,
{
    let r = (4 - (n % 4)) % 4;
    assert((n + (4 - (n as int % 4)) % 4) % 4 == 0) by (nonlinear_arith);
    r
}

/// Appends `n` zero bytes to `out`.
pub fn write_zeros(out: &mut Vec<u8>, n: usize)
    ensures
        final(out)@ == old(out)@ + zero_bytes(n as int),
{
    let mut i: usize = 0;
    while i < n
        invariant
            i <= n,
            out@ == old(out)@ + zero_bytes(i as int),
        decreases n - i,
    {
        out.push(0);
        assert(out@ =~= old(out)@ + zero_bytes(i + 1 as int));
        i = i + 1;
    }
}

/// Padding brings a length up to the next multiple of four.
pub proof fn lemma_pad_aligned(n: int)
    requires
        n >= 0,
    ensures
        0 <= spec_pad(n) < 4,
        (n + spec_pad(n)) % 4 == 0,
{
    assert((n + (4 - (n % 4)) % 4) % 4 == 0) by (nonlinear_arith);
    assert(0 <= (4 - (n % 4)) % 4 < 4) by (nonlinear_arith);
}

/// Appends a byte slice to `out`.
pub fn write_bytes(out: &mut Vec<u8>, b: &[u8])
    ensures
        final(out)@ == old(out)@ + b@,
{
    let mut i: usize = 0;
    while i < b.len()
        invariant
            i <= b@.len(),
            out@ == old(out)@ + b@.take(i as int),
        decreases b@.len() - i,
    {
        out.push(b[i]);
        assert(out@ =~= old(out)@ + b@.take(i + 1 as int));
        i = i + 1;
    }
    proof {
        assert(b@.take(b@.len() as int) =~= b@);
    }
}

/// A sequence of `n` zero bytes.
pub open spec fn zero_bytes(n: int) -> Seq<u8> {
    Seq::new(n as nat, |i: int| 0u8)
}

} // verus!
