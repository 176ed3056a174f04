//! Big-endian 16-bit fields as they appear on the wire.
use vstd::prelude::*;

verus! {

/// The high byte of a 16-bit value.
pub open spec fn hi_byte(v: u16) -> u8 {
    (v / 256) as u8
}

/// The low byte of a 16-bit value.
pub open spec fn lo_byte(v: u16) -> u8 {
    (v % 256) as u8
}

/// The value of a big-endian 16-bit field made of `hi` and `lo`.
pub open spec fn be16(hi: u8, lo: u8) -> int {
    hi as int * 256 + lo as int
}

/// The 16-bit truncation of a non-negative length, as `as u16` computes it.
pub open spec fn trunc16(n: int) -> u16 {
    (n % 65536) as u16
}

/// Splits a 16-bit value into its two big-endian bytes.
pub fn split_u16(v: u16) -> (r: (u8, u8))
    ensures
        r.0 == hi_byte(v),
        r.1 == lo_byte(v),
        be16(r.0, r.1) == v,
{
    let h = (v >> 8) as u8;
    let l = (v & 0xFF) as u8;
    assert(h == (v / 256) as u8 && l == (v % 256) as u8) by (bit_vector)
        requires
            h == (v >> 8) as u8,
            l == (v & 0xFF) as u8,
    ;
    (h, l)
}

/// Joins two big-endian bytes into a 16-bit value.
pub fn join_u16(hi: u8, lo: u8) -> (r: u16)
    ensures
        r == be16(hi, lo),
{
    let r = ((hi as u16) << 8) | (lo as u16);
    assert(r == hi as u16 * 256 + lo as u16) by (bit_vector)
        requires
            r == ((hi as u16) << 8) | (lo as u16),
    ;
    r
}

/// The 16-bit truncation of a length, computed without overflow.
pub fn truncate_len16(n: usize, extra: u16) -> (r: u16)
    ensures
        r == trunc16(n + extra),
{
    let low = (n % 65536) as u16;
    let r = low.wrapping_add(extra);
    assert(r == trunc16(n + extra)) by (nonlinear_arith)
        requires
            low == n % 65536,
            r == (low + extra) % 65536,
            n >= 0,
    ;
    r
}

/// Splitting and joining a 16-bit value are inverse.
pub proof fn lemma_be16_roundtrip(v: u16)
    ensures
        be16(hi_byte(v), lo_byte(v)) == v,
{
}

} // verus!
