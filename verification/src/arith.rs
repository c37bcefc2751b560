//! Fixed-width arithmetic used by the instruction semantics.
use vstd::prelude::*;

verus! {

/// `x` reduced modulo 2^16.
#[verifier::opaque]
pub open spec fn wrap16(x: int) -> u16 {
    (x % 0x10000) as u16
}

/// `x` reduced modulo 2^8.
#[verifier::opaque]
pub open spec fn wrap8(x: int) -> u8 {
    (x % 0x100) as u8
}

pub broadcast proof fn lemma_wrapping_add16(x: u16, y: u16)
    ensures
        #[trigger] vstd::wrapping::u16_specs::wrapping_add(x, y) == wrap16(x + y),
{
    reveal(wrap16);
}

pub broadcast proof fn lemma_wrapping_sub16(x: u16, y: u16)
    ensures
        #[trigger] vstd::wrapping::u16_specs::wrapping_sub(x, y) == wrap16(x - y),
{
    reveal(wrap16);
}

pub broadcast proof fn lemma_wrapping_add8(x: u8, y: u8)
    ensures
        #[trigger] vstd::wrapping::u8_specs::wrapping_add(x, y) == wrap8(x + y),
{
    reveal(wrap8);
}

pub broadcast proof fn lemma_wrapping_sub8(x: u8, y: u8)
    ensures
        #[trigger] vstd::wrapping::u8_specs::wrapping_sub(x, y) == wrap8(x - y),
{
    reveal(wrap8);
}

/// Reducing an intermediate result modulo 2^8 does not change the final one.
pub proof fn lemma_wrap8_assoc(x: int, y: int)
    ensures
        wrap8(wrap8(x) + y) == wrap8(x + y),
{
    reveal(wrap8);
    assert((((x % 256) as u8) + y) % 256 == (x + y) % 256) by (nonlinear_arith);
}

pub broadcast group group_wrapping {
    lemma_wrapping_add16,
    lemma_wrapping_sub16,
    lemma_wrapping_add8,
    lemma_wrapping_sub8,
}

/// The two's complement value of a byte.
pub open spec fn signed_byte(b: u8) -> int {
    if b < 128 {
        b as int
    } else {
        b - 256
    }
}

/// The 16-bit value with high byte `hi` and low byte `lo`.
pub open spec fn pair(hi: u8, lo: u8) -> u16 {
    (hi * 256 + lo) as u16
}

/// The shift-and-or form of `pair`.
pub proof fn lemma_pair_bits(hi: u8, lo: u8)
    by (bit_vector)
    ensures
        ((hi as u16) << 8) | (lo as u16) == pair(hi, lo),
{
}

/// The mask-and-shift forms of the bytes of a word.
pub proof fn lemma_split_bits(v: u16)
    by (bit_vector)
    ensures
        ((v & 0xFF00) >> 8) as u8 == (v / 256) as u8,
        (v & 0x00FF) as u8 == (v % 256) as u8,
        (v & 0x00F0) as u8 == ((v % 256) as u8) & 0xF0,
{
}

} // verus!
