//! Properties of the emulator that hold across operations.
use vstd::prelude::*;
use crate::arith::{wrap8, wrap16, signed_byte, lemma_pair_bits, lemma_split_bits};
use crate::cpu::{
    Registers,
    CpuView,
    alu_result,
    rlca,
    rrca,
    rla,
    rra,
    cpl,
    ccf,
    daa,
    op_x,
    op_y,
    op_z,
};
use crate::mmu::{MmuView, MbcType, cartridge_from_rom, lemma_write_keeps_wf, lemma_write_keeps_bank};
use crate::ppu::{PpuView, lemma_color_id_bound, lemma_stat_bits};

verus! {

// ---------------------------------------------------------------------------
// Registers
/// Setting a register pair and reading it back gives the value written
/// (B, D, H hold the high byte).
pub proof fn law_register_pair_roundtrip(r: Registers, v: u16)
    ensures
        r.with_bc(v).bc() == v,
        r.with_de(v).de() == v,
        r.with_hl(v).hl() == v,
{
}

/// AF reads back with the low four bits cleared: they are wired to 0.
pub proof fn law_af_low_bits_zero(r: Registers, v: u16)
    ensures
        r.with_af(v).af() == v & 0xFFF0,
        r.with_af(v).f & 0x0F == 0,
{
    lemma_split_bits(v);
    let hi = ((v & 0xFF00) >> 8) as u8;
    let lo = (v & 0x00F0) as u8;
    lemma_pair_bits(hi, lo);
    assert(((hi as u16) << 8) | (lo as u16) == v & 0xFFF0 && lo & 0x0F == 0) by (bit_vector)
        requires
            hi == ((v & 0xFF00) >> 8) as u8,
            lo == (v & 0x00F0) as u8,
    ;
}

/// Setting or clearing one flag bit of F, against every other bit.
proof fn lemma_flag_bits(f: u8)
    by (bit_vector)
    ensures
        (f | 0x80) & 0x80 != 0,
        (f & 0x7F) & 0x80 == 0,
        (f | 0x80) & 0x40 == f & 0x40,
        (f & 0x7F) & 0x40 == f & 0x40,
        (f | 0x80) & 0x20 == f & 0x20,
        (f & 0x7F) & 0x20 == f & 0x20,
        (f | 0x80) & 0x10 == f & 0x10,
        (f & 0x7F) & 0x10 == f & 0x10,
        (f | 0x80) & 0x0F == f & 0x0F,
        (f & 0x7F) & 0x0F == f & 0x0F,
        (f | 0x40) & 0x40 != 0,
        (f & 0xBF) & 0x40 == 0,
        (f | 0x40) & 0x80 == f & 0x80,
        (f & 0xBF) & 0x80 == f & 0x80,
        (f | 0x40) & 0x20 == f & 0x20,
        (f & 0xBF) & 0x20 == f & 0x20,
        (f | 0x40) & 0x10 == f & 0x10,
        (f & 0xBF) & 0x10 == f & 0x10,
        (f | 0x40) & 0x0F == f & 0x0F,
        (f & 0xBF) & 0x0F == f & 0x0F,
        (f | 0x20) & 0x20 != 0,
        (f & 0xDF) & 0x20 == 0,
        (f | 0x20) & 0x80 == f & 0x80,
        (f & 0xDF) & 0x80 == f & 0x80,
        (f | 0x20) & 0x40 == f & 0x40,
        (f & 0xDF) & 0x40 == f & 0x40,
        (f | 0x20) & 0x10 == f & 0x10,
        (f & 0xDF) & 0x10 == f & 0x10,
        (f | 0x20) & 0x0F == f & 0x0F,
        (f & 0xDF) & 0x0F == f & 0x0F,
        (f | 0x10) & 0x10 != 0,
        (f & 0xEF) & 0x10 == 0,
        (f | 0x10) & 0x80 == f & 0x80,
        (f & 0xEF) & 0x80 == f & 0x80,
        (f | 0x10) & 0x40 == f & 0x40,
        (f & 0xEF) & 0x40 == f & 0x40,
        (f | 0x10) & 0x20 == f & 0x20,
        (f & 0xEF) & 0x20 == f & 0x20,
        (f | 0x10) & 0x0F == f & 0x0F,
        (f & 0xEF) & 0x0F == f & 0x0F,
{
}

/// Setting a flag and reading it back gives the value set; the other
/// flags and the low bits of F are unchanged.
pub proof fn law_flag_roundtrip(r: Registers, v: bool)
    ensures
        r.with_zero_flag(v).zero_flag() == v,
        r.with_zero_flag(v).sub_flag() == r.sub_flag(),
        r.with_zero_flag(v).half_carry_flag() == r.half_carry_flag(),
        r.with_zero_flag(v).carry_flag() == r.carry_flag(),
        r.with_zero_flag(v).f & 0x0F == r.f & 0x0F,
        r.with_sub_flag(v).sub_flag() == v,
        r.with_sub_flag(v).zero_flag() == r.zero_flag(),
        r.with_sub_flag(v).half_carry_flag() == r.half_carry_flag(),
        r.with_sub_flag(v).carry_flag() == r.carry_flag(),
        r.with_sub_flag(v).f & 0x0F == r.f & 0x0F,
        r.with_half_carry_flag(v).half_carry_flag() == v,
        r.with_half_carry_flag(v).zero_flag() == r.zero_flag(),
        r.with_half_carry_flag(v).sub_flag() == r.sub_flag(),
        r.with_half_carry_flag(v).carry_flag() == r.carry_flag(),
        r.with_half_carry_flag(v).f & 0x0F == r.f & 0x0F,
        r.with_carry_flag(v).carry_flag() == v,
        r.with_carry_flag(v).zero_flag() == r.zero_flag(),
        r.with_carry_flag(v).sub_flag() == r.sub_flag(),
        r.with_carry_flag(v).half_carry_flag() == r.half_carry_flag(),
        r.with_carry_flag(v).f & 0x0F == r.f & 0x0F,
{
    lemma_flag_bits(r.f);
}

/// What the flags read after `with_flags`.
proof fn lemma_with_flags(r: Registers, z: bool, n: bool, h: bool, c: bool)
    ensures
        r.with_flags(z, n, h, c).zero_flag() == z,
        r.with_flags(z, n, h, c).sub_flag() == n,
        r.with_flags(z, n, h, c).half_carry_flag() == h,
        r.with_flags(z, n, h, c).carry_flag() == c,
        r.with_flags(z, n, h, c).f & 0x0F == r.f & 0x0F,
        r.with_flags(z, n, h, c).a == r.a,
{
    let r1 = r.with_zero_flag(z);
    let r2 = r1.with_sub_flag(n);
    let r3 = r2.with_half_carry_flag(h);
    law_flag_roundtrip(r, z);
    law_flag_roundtrip(r1, n);
    law_flag_roundtrip(r2, h);
    law_flag_roundtrip(r3, c);
}

proof fn lemma_low_nibble(x: u8)
    ensures
        x & 0x0F == x % 16,
{
    assert(x & 0x0F == x % 16) by (bit_vector);
}

// ---------------------------------------------------------------------------
// ALU
/// ADD A, n: the result and the carry flag together hold the full sum; Z
/// reports a zero result, N is cleared and H reports a carry out of bit 3.
pub proof fn law_add_result(r: Registers, n: u8)
    ensures
        ({
            let r1 = alu_result(r, 0, n);
            &&& r1.a + (if r1.carry_flag() {
                256int
            } else {
                0
            }) == r.a + n
            &&& r1.zero_flag() == (r1.a == 0)
            &&& !r1.sub_flag()
            &&& r1.half_carry_flag() == (r.a % 16 + n % 16 > 15)
        }),
{
    reveal(wrap8);
    lemma_low_nibble(r.a);
    lemma_low_nibble(n);
    let res = wrap8(r.a + n);
    lemma_with_flags(
        Registers { a: res, ..r },
        res == 0,
        false,
        (r.a & 0x0F) + (n & 0x0F) > 0x0F,
        r.a + n > 0xFF,
    );
}

/// ADC A, n: as ADD, with the incoming carry added in.
pub proof fn law_adc_result(r: Registers, n: u8)
    ensures
        ({
            let r1 = alu_result(r, 1, n);
            let c: int = if r.carry_flag() {
                1
            } else {
                0
            };
            &&& r1.a + (if r1.carry_flag() {
                256int
            } else {
                0
            }) == r.a + n + c
            &&& r1.zero_flag() == (r1.a == 0)
            &&& !r1.sub_flag()
        }),
{
    reveal(wrap8);
    let carry: u8 = if r.carry_flag() {
        1
    } else {
        0
    };
    let res = wrap8(r.a + n + carry);
    lemma_with_flags(
        Registers { a: res, ..r },
        res == 0,
        false,
        (r.a & 0x0F) + (n & 0x0F) + carry > 0x0F,
        r.a + n + carry > 0xFF,
    );
}

/// SUB A, n: the result less the borrow (carry flag) is the difference;
/// Z reports a zero result, N is set and H reports a borrow from bit 4.
pub proof fn law_sub_result(r: Registers, n: u8)
    ensures
        ({
            let r1 = alu_result(r, 2, n);
            &&& r1.a - (if r1.carry_flag() {
                256int
            } else {
                0
            }) == r.a - n
            &&& r1.zero_flag() == (r1.a == 0)
            &&& r1.sub_flag()
            &&& r1.half_carry_flag() == (r.a % 16 < n % 16)
        }),
{
    reveal(wrap8);
    lemma_low_nibble(r.a);
    lemma_low_nibble(n);
    let res = wrap8(r.a - n);
    lemma_with_flags(
        Registers { a: res, ..r },
        res == 0,
        true,
        (r.a & 0x0F) < (n & 0x0F),
        r.a < n,
    );
}

/// SBC A, n: as SUB, with the incoming carry subtracted too.
pub proof fn law_sbc_result(r: Registers, n: u8)
    ensures
        ({
            let r1 = alu_result(r, 3, n);
            let c: int = if r.carry_flag() {
                1
            } else {
                0
            };
            &&& r1.a - (if r1.carry_flag() {
                256int
            } else {
                0
            }) == r.a - n - c
            &&& r1.zero_flag() == (r1.a == 0)
            &&& r1.sub_flag()
        }),
{
    reveal(wrap8);
    let carry: u8 = if r.carry_flag() {
        1
    } else {
        0
    };
    let res = wrap8(r.a - n - carry);
    lemma_with_flags(
        Registers { a: res, ..r },
        res == 0,
        true,
        (r.a & 0x0F) < (n & 0x0F) + carry,
        r.a < n + carry,
    );
}

/// CP A, n sets the flags exactly as SUB A, n does, and keeps A.
pub proof fn law_compare_is_subtract_without_result(r: Registers, n: u8)
    ensures
        alu_result(r, 7, n).a == r.a,
        alu_result(r, 7, n).f == alu_result(r, 2, n).f,
        alu_result(r, 7, n) == (Registers { a: r.a, ..alu_result(r, 2, n) }),
{
}

/// AND sets H and clears C; XOR and OR clear both; each sets Z on a zero result.
pub proof fn law_logic_flags(r: Registers, n: u8)
    ensures
        alu_result(r, 4, n).a == r.a & n,
        alu_result(r, 4, n).half_carry_flag(),
        !alu_result(r, 4, n).carry_flag(),
        alu_result(r, 4, n).zero_flag() == (r.a & n == 0),
        alu_result(r, 5, n).a == r.a ^ n,
        !alu_result(r, 5, n).half_carry_flag(),
        !alu_result(r, 5, n).carry_flag(),
        alu_result(r, 5, n).zero_flag() == (r.a ^ n == 0),
        alu_result(r, 6, n).a == r.a | n,
        !alu_result(r, 6, n).half_carry_flag(),
        !alu_result(r, 6, n).carry_flag(),
        alu_result(r, 6, n).zero_flag() == (r.a | n == 0),
{
    lemma_with_flags(Registers { a: r.a & n, ..r }, r.a & n == 0, false, true, false);
    lemma_with_flags(Registers { a: r.a ^ n, ..r }, r.a ^ n == 0, false, false, false);
    lemma_with_flags(Registers { a: r.a | n, ..r }, r.a | n == 0, false, false, false);
}

/// XOR A, A clears A and sets Z.
pub proof fn law_xor_self_clears(r: Registers)
    ensures
        alu_result(r, 5, r.a).a == 0,
        alu_result(r, 5, r.a).zero_flag(),
{
    assert(r.a ^ r.a == 0) by (bit_vector);
    law_logic_flags(r, r.a);
}

// ---------------------------------------------------------------------------
// Rotates and flag operations
/// RRCA undoes RLCA, and RLCA undoes RRCA; both clear Z.
pub proof fn law_rotate_circular_inverse(r: Registers)
    ensures
        rrca(rlca(r)).a == r.a,
        rlca(rrca(r)).a == r.a,
        !rlca(r).zero_flag(),
        !rrca(r).zero_flag(),
{
    let a = r.a;
    let c1 = (a & 0x80) >> 7;
    let c2 = a & 0x01;
    assert((((((a << 1) | c1) >> 1) | ((((a << 1) | c1) & 0x01) << 7)) == a)) by (bit_vector)
        requires
            c1 == (a & 0x80) >> 7,
    ;
    assert(((((a >> 1) | (c2 << 7)) << 1) | ((((a >> 1) | (c2 << 7)) & 0x80) >> 7)) == a)
        by (bit_vector)
        requires
            c2 == a & 0x01,
    ;
    let r1 = rlca(r);
    lemma_with_flags(Registers { a: (a << 1) | c1, ..r }, false, false, false, c1 == 1);
    lemma_with_flags(Registers { a: (a >> 1) | (c2 << 7), ..r }, false, false, false, c2 == 1);
    lemma_with_flags(
        Registers { a: (r1.a >> 1) | ((r1.a & 0x01) << 7), ..r1 },
        false,
        false,
        false,
        (r1.a & 0x01) == 1,
    );
    let r2 = rrca(r);
    lemma_with_flags(
        Registers { a: (r2.a << 1) | ((r2.a & 0x80) >> 7), ..r2 },
        false,
        false,
        false,
        ((r2.a & 0x80) >> 7) == 1,
    );
}

/// RRA undoes RLA, restoring both A and the carry flag.
pub proof fn law_rotate_through_carry_inverse(r: Registers)
    ensures
        rra(rla(r)).a == r.a,
        rra(rla(r)).carry_flag() == r.carry_flag(),
{
    let a = r.a;
    let c0: u8 = if r.carry_flag() {
        1
    } else {
        0
    };
    let nc = (a & 0x80) >> 7;
    let a1 = (a << 1) | c0;
    lemma_with_flags(Registers { a: a1, ..r }, false, false, false, nc == 1);
    let r1 = rla(r);
    assert(r1.carry_flag() == (nc == 1));
    let c1: u8 = if r1.carry_flag() {
        1
    } else {
        0
    };
    assert(c1 == nc && nc <= 1) by (bit_vector)
        requires
            nc == (a & 0x80) >> 7,
            c1 == 1 || c1 == 0,
            (c1 == 1) == (nc == 1),
    ;
    assert(((a1 >> 1) | (c1 << 7)) == a && ((a1 & 0x01) == 1) == (c0 == 1)) by (bit_vector)
        requires
            a1 == (a << 1) | c0,
            c0 <= 1,
            c1 == (a & 0x80) >> 7,
    ;
    lemma_with_flags(
        Registers { a: (a1 >> 1) | (c1 << 7), ..r1 },
        false,
        false,
        false,
        (a1 & 0x01) == 1,
    );
}

/// CPL twice restores A; CCF twice restores the carry flag.
pub proof fn law_complement_involutions(r: Registers)
    ensures
        cpl(cpl(r)).a == r.a,
        ccf(ccf(r)).carry_flag() == r.carry_flag(),
{
    let a = r.a;
    assert(!(!a) == a) by (bit_vector);
    let r1 = r.with_sub_flag(false);
    let r2 = r1.with_half_carry_flag(false);
    law_flag_roundtrip(r, false);
    law_flag_roundtrip(r1, false);
    let r3 = r2.with_carry_flag(!r2.carry_flag());
    law_flag_roundtrip(r2, !r2.carry_flag());
    let r4 = r3.with_sub_flag(false);
    let r5 = r4.with_half_carry_flag(false);
    law_flag_roundtrip(r3, false);
    law_flag_roundtrip(r4, false);
    law_flag_roundtrip(r5, !r5.carry_flag());
}

// ---------------------------------------------------------------------------
// Decimal adjust
/// Whether both nibbles of `x` are decimal digits.
pub open spec fn is_bcd(x: u8) -> bool {
    x % 16 <= 9 && x / 16 <= 9
}

/// The number that a BCD byte stands for.
pub open spec fn bcd_value(x: u8) -> int {
    (x / 16) * 10 + x % 16
}

spec fn bv_sum(a: u16, n: u16) -> u16 {
    ((a + n) % 256) as u16
}

spec fn bv_daa_carry(a: u16, n: u16) -> bool {
    a + n > 255 || bv_sum(a, n) > 0x99
}

spec fn bv_daa_adjust(a: u16, n: u16) -> u16 {
    ((if bv_daa_carry(a, n) {
        0x60u16
    } else {
        0u16
    }) + (if a % 16 + n % 16 > 15 || bv_sum(a, n) % 16 > 9 {
        0x06u16
    } else {
        0u16
    })) as u16
}

spec fn bv_daa_result(a: u16, n: u16) -> u16 {
    ((bv_sum(a, n) + bv_daa_adjust(a, n)) % 256) as u16
}

/// The decimal adjust after a binary addition of two BCD bytes, checked
/// over all of them.
proof fn lemma_daa_bcd_bits(a: u16, n: u16)
    by (bit_vector)
    requires
        a < 256,
        n < 256,
        a % 16 <= 9,
        a / 16 <= 9,
        n % 16 <= 9,
        n / 16 <= 9,
    ensures
        bv_daa_result(a, n) % 16 <= 9,
        bv_daa_result(a, n) / 16 <= 9,
        (bv_daa_result(a, n) / 16) * 10 + bv_daa_result(a, n) % 16 == ((a / 16) * 10 + a % 16 + (n
            / 16) * 10 + n % 16) % 100,
        bv_daa_carry(a, n) == ((a / 16) * 10 + a % 16 + (n / 16) * 10 + n % 16 >= 100),
{
}

/// DAA after ADD of two BCD bytes gives the BCD form of their decimal sum
/// modulo 100, and sets the carry flag when that sum reaches 100.
pub proof fn law_daa_after_add(r: Registers, n: u8)
    requires
        is_bcd(r.a),
        is_bcd(n),
    ensures
        ({
            let r2 = daa(alu_result(r, 0, n));
            &&& is_bcd(r2.a)
            &&& bcd_value(r2.a) == (bcd_value(r.a) + bcd_value(n)) % 100
            &&& r2.carry_flag() == (bcd_value(r.a) + bcd_value(n) >= 100)
        }),
{
    let a = r.a;
    let r1 = alu_result(r, 0, n);
    law_add_result(r, n);
    reveal(wrap8);
    lemma_with_flags(
        Registers { a: wrap8(a + n), ..r },
        wrap8(a + n) == 0,
        false,
        (a & 0x0F) + (n & 0x0F) > 0x0F,
        a + n > 0xFF,
    );
    lemma_low_nibble(a);
    lemma_low_nibble(n);
    lemma_low_nibble(r1.a);
    lemma_daa_bcd_bits(a as u16, n as u16);
    assert(r1.a == bv_sum(a as u16, n as u16));
    assert(r1.carry_flag() == (a + n > 255));
    let (adjust, carry) = crate::cpu::daa_adjust(r1);
    assert(carry == bv_daa_carry(a as u16, n as u16));
    assert(adjust == bv_daa_adjust(a as u16, n as u16));
    let res = wrap8(r1.a + adjust);
    assert(res == bv_daa_result(a as u16, n as u16));
    let q1 = Registers { a: res, ..r1 }.with_zero_flag(res == 0);
    let q2 = q1.with_half_carry_flag(false);
    law_flag_roundtrip(q2, carry);
}

/// The byte that DAA leaves after a binary subtraction `a - n`.
spec fn bv_daa_sub(a: u16, n: u16) -> u16 {
    if a >= n {
        if a % 16 < n % 16 {
            (a - n - 6) as u16
        } else {
            (a - n) as u16
        }
    } else {
        if a % 16 < n % 16 {
            (a + 154 - n) as u16
        } else {
            (a + 160 - n) as u16
        }
    }
}

/// The decimal adjust after a binary subtraction of two BCD bytes, checked
/// over all of them.
proof fn lemma_daa_sub_bcd_bits(a: u16, n: u16)
    by (bit_vector)
    requires
        a < 256,
        n < 256,
        a % 16 <= 9,
        a / 16 <= 9,
        n % 16 <= 9,
        n / 16 <= 9,
    ensures
        a >= n && a % 16 < n % 16 ==> a >= n + 6,
        a < n ==> a + 154 >= n,
        bv_daa_sub(a, n) % 16 <= 9,
        bv_daa_sub(a, n) / 16 <= 9,
        (bv_daa_sub(a, n) / 16) * 10 + bv_daa_sub(a, n) % 16 + (n / 16) * 10 + n % 16 == (a / 16)
            * 10 + a % 16 + (if a < n {
            100u16
        } else {
            0u16
        }),
        (a < n) == ((a / 16) * 10 + a % 16 < (n / 16) * 10 + n % 16),
{
}

/// The value part of DAA after SUB, on the two BCD operands.
#[verifier::rlimit(40)]
proof fn lemma_daa_sub_value(a: u8, n: u8)
    requires
        is_bcd(a),
        is_bcd(n),
    ensures
        ({
            let adjust: int = (if a < n {
                -0x60int
            } else {
                0int
            }) + (if a % 16 < n % 16 {
                -0x06int
            } else {
                0int
            });
            let res = wrap8(wrap8(a - n) + adjust);
            &&& is_bcd(res)
            &&& bcd_value(res) == (bcd_value(a) - bcd_value(n)) % 100
        }),
        (a < n) == (bcd_value(a) < bcd_value(n)),
{
    reveal(wrap8);
    lemma_daa_sub_bcd_bits(a as u16, n as u16);
    assert(bv_daa_sub(a as u16, n as u16) < 256);
    let adjust: int = (if a < n {
        -0x60int
    } else {
        0int
    }) + (if a % 16 < n % 16 {
        -0x06int
    } else {
        0int
    });
    let d = wrap8(a - n);
    let res = wrap8(d + adjust);
    if a >= n {
        assert(d == a - n);
    } else {
        assert(d == a - n + 256);
    }
    assert(res == bv_daa_sub(a as u16, n as u16));
}

/// DAA after SUB of two BCD bytes gives the BCD form of their decimal
/// difference modulo 100, and sets the carry flag when the subtrahend is
/// the larger; N stays set.
pub proof fn law_daa_after_sub(r: Registers, n: u8)
    requires
        is_bcd(r.a),
        is_bcd(n),
    ensures
        ({
            let r2 = daa(alu_result(r, 2, n));
            &&& is_bcd(r2.a)
            &&& bcd_value(r2.a) == (bcd_value(r.a) - bcd_value(n)) % 100
            &&& r2.carry_flag() == (bcd_value(r.a) < bcd_value(n))
            &&& r2.zero_flag() == (r2.a == 0)
            &&& r2.sub_flag()
            &&& !r2.half_carry_flag()
        }),
{
    let a = r.a;
    let r1 = alu_result(r, 2, n);
    law_sub_result(r, n);
    lemma_with_flags(
        Registers { a: wrap8(a - n), ..r },
        wrap8(a - n) == 0,
        true,
        (a & 0x0F) < (n & 0x0F),
        a < n,
    );
    lemma_low_nibble(a);
    lemma_low_nibble(n);
    lemma_daa_sub_value(a, n);
    assert(r1.a == wrap8(a - n));
    assert(r1.carry_flag() == (a < n));
    assert(r1.half_carry_flag() == (a % 16 < n % 16));
    assert(r1.sub_flag());
    let (adjust, carry) = crate::cpu::daa_adjust(r1);
    let res = wrap8(r1.a + adjust);
    let q1 = Registers { a: res, ..r1 }.with_zero_flag(res == 0);
    let q2 = q1.with_half_carry_flag(false);
    law_flag_roundtrip(Registers { a: res, ..r1 }, res == 0);
    law_flag_roundtrip(q1, false);
    law_flag_roundtrip(q2, carry);
}

/// DAA always clears H.
pub proof fn law_daa_clears_half_carry(r: Registers)
    ensures
        !daa(r).half_carry_flag(),
{
    let (adjust, carry) = crate::cpu::daa_adjust(r);
    let res = wrap8(r.a + adjust);
    let q1 = Registers { a: res, ..r }.with_zero_flag(res == 0);
    let q2 = q1.with_half_carry_flag(false);
    law_flag_roundtrip(q1, false);
    law_flag_roundtrip(q2, carry);
}

/// The registers after ADD HL, r16 with operand `val`.
proof fn lemma_add_hl_registers(r: Registers, val: u16)
    ensures
        ({
            let hl = r.hl();
            let r3 = r.with_hl(wrap16(hl + val)).with_sub_flag(false).with_half_carry_flag(
                (hl & 0x0FFF) + (val & 0x0FFF) > 0x0FFF,
            ).with_carry_flag(hl + val > 0xFFFF);
            &&& r3.hl() + (if r3.carry_flag() {
                0x10000int
            } else {
                0
            }) == hl + val
            &&& r3.half_carry_flag() == (hl % 0x1000 + val % 0x1000 > 0x0FFF)
            &&& !r3.sub_flag()
            &&& r3.zero_flag() == r.zero_flag()
        }),
{
    let hl = r.hl();
    let r0 = r.with_hl(wrap16(hl + val));
    let r1 = r0.with_sub_flag(false);
    let r2 = r1.with_half_carry_flag((hl & 0x0FFF) + (val & 0x0FFF) > 0x0FFF);
    law_register_pair_roundtrip(r, wrap16(hl + val));
    law_flag_roundtrip(r0, false);
    law_flag_roundtrip(r1, (hl & 0x0FFF) + (val & 0x0FFF) > 0x0FFF);
    law_flag_roundtrip(r2, hl + val > 0xFFFF);
    lemma_low_twelve_bits(hl);
    lemma_low_twelve_bits(val);
    reveal(wrap16);
}

/// ADD HL, r16: HL and the carry flag together hold the full sum; H
/// reports a carry out of bit 11; N is cleared and Z kept.
pub proof fn law_add_hl_result(s: CpuView, y: u8)
    requires
        y <= 7,
        y % 2 == 1,
    ensures
        ({
            let r1 = s.block0(y, 1).0.registers;
            let val = s.reg16(y / 2);
            &&& r1.hl() + (if r1.carry_flag() {
                0x10000int
            } else {
                0
            }) == s.registers.hl() + val
            &&& r1.half_carry_flag() == (s.registers.hl() % 0x1000 + val % 0x1000 > 0x0FFF)
            &&& !r1.sub_flag()
            &&& r1.zero_flag() == s.registers.zero_flag()
        }),
{
    lemma_add_hl_registers(s.registers, s.reg16(y / 2));
}

proof fn lemma_low_twelve_bits(x: u16)
    by (bit_vector)
    ensures
        x & 0x0FFF == x % 0x1000,
{
}

// ---------------------------------------------------------------------------
// Memory
/// The plain RAM areas: work RAM, video RAM, OAM and high RAM.
pub open spec fn is_plain_ram(addr: u16) -> bool {
    ||| 0xC000 <= addr <= 0xDFFF
    ||| 0x8000 <= addr <= 0x9FFF
    ||| 0xFE00 <= addr <= 0xFE9F
    ||| 0xFF80 <= addr <= 0xFFFE
}

/// A read of plain RAM gives back what the last write there wrote, and the
/// write changes no other address.
pub proof fn law_ram_read_after_write(m: MmuView, addr: u16, other: u16, v: u8)
    requires
        m.wf(),
        is_plain_ram(addr),
    ensures
        m.write(addr, v).read(addr) == v,
        other != addr ==> m.write(addr, v).read(other) == m.read(other),
{
    lemma_plain_ram_write(m, addr, v);
    if 0xC000 <= addr <= 0xDFFF {
        lemma_read_wram_update(m, addr, other, v);
    } else if 0x8000 <= addr <= 0x9FFF {
        lemma_read_vram_update(m, addr, other, v);
    } else if 0xFE00 <= addr <= 0xFE9F {
        lemma_read_oam_update(m, addr, other, v);
    } else {
        lemma_read_hram_update(m, addr, other, v);
    }
}

proof fn lemma_plain_ram_write(m: MmuView, addr: u16, v: u8)
    requires
        is_plain_ram(addr),
    ensures
        0xC000 <= addr <= 0xDFFF ==> m.write(addr, v) == (MmuView { wram: m.wram.update(addr - 0xC000, v), ..m }),
        0x8000 <= addr <= 0x9FFF ==> m.write(addr, v) == (MmuView {
            ppu: PpuView { vram: m.ppu.vram.update(addr - 0x8000, v), ..m.ppu },
            ..m
        }),
        0xFE00 <= addr <= 0xFE9F ==> m.write(addr, v) == (MmuView {
            ppu: PpuView { oam: m.ppu.oam.update(addr - 0xFE00, v), ..m.ppu },
            ..m
        }),
        0xFF80 <= addr <= 0xFFFE ==> m.write(addr, v) == (MmuView { hram: m.hram.update(addr - 0xFF80, v), ..m }),
{
    reveal(MmuView::write);
}

proof fn lemma_read_wram_update(m: MmuView, addr: u16, other: u16, v: u8)
    requires
        m.wf(),
        0xC000 <= addr <= 0xDFFF,
    ensures
        (MmuView { wram: m.wram.update(addr - 0xC000, v), ..m }).read(addr) == v,
        other != addr ==> (MmuView { wram: m.wram.update(addr - 0xC000, v), ..m }).read(other) == m.read(other),
{
    reveal(MmuView::read);
}

proof fn lemma_read_vram_update(m: MmuView, addr: u16, other: u16, v: u8)
    requires
        m.wf(),
        0x8000 <= addr <= 0x9FFF,
    ensures
        (MmuView { ppu: PpuView { vram: m.ppu.vram.update(addr - 0x8000, v), ..m.ppu }, ..m }).read(addr) == v,
        other != addr ==> (MmuView {
            ppu: PpuView { vram: m.ppu.vram.update(addr - 0x8000, v), ..m.ppu },
            ..m
        }).read(other) == m.read(other),
{
    reveal(MmuView::read);
}

proof fn lemma_read_oam_update(m: MmuView, addr: u16, other: u16, v: u8)
    requires
        m.wf(),
        0xFE00 <= addr <= 0xFE9F,
    ensures
        (MmuView { ppu: PpuView { oam: m.ppu.oam.update(addr - 0xFE00, v), ..m.ppu }, ..m }).read(addr) == v,
        other != addr ==> (MmuView {
            ppu: PpuView { oam: m.ppu.oam.update(addr - 0xFE00, v), ..m.ppu },
            ..m
        }).read(other) == m.read(other),
{
    reveal(MmuView::read);
}

proof fn lemma_read_hram_update(m: MmuView, addr: u16, other: u16, v: u8)
    requires
        m.wf(),
        0xFF80 <= addr <= 0xFFFE,
    ensures
        (MmuView { hram: m.hram.update(addr - 0xFF80, v), ..m }).read(addr) == v,
        other != addr ==> (MmuView { hram: m.hram.update(addr - 0xFF80, v), ..m }).read(other) == m.read(other),
{
    reveal(MmuView::read);
}

/// Words are stored little-endian: in plain RAM a word read gives back the
/// word written, low byte at `addr` and high byte at `addr + 1`.
pub proof fn law_word_roundtrip(m: MmuView, addr: u16, v: u16)
    requires
        m.wf(),
        addr < 0xFFFF,
        is_plain_ram(addr),
        is_plain_ram((addr + 1) as u16),
    ensures
        m.write_word(addr, v).read_word(addr) == v,
        m.write_word(addr, v).read(addr) == v % 256,
        m.write_word(addr, v).read((addr + 1) as u16) == v / 256,
{
    let m1 = m.write(addr, (v % 256) as u8);
    law_ram_read_after_write(m, addr, (addr + 1) as u16, (v % 256) as u8);
    lemma_write_keeps_wf(m, addr, (v % 256) as u8);
    law_ram_read_after_write(m1, (addr + 1) as u16, addr, (v / 256) as u8);
}

/// The bits that read as 1 whatever was written: STAT bit 7, TAC bits 3-7,
/// IF bits 5-7, joypad bits 6-7.
pub proof fn law_fixed_register_bits(m: MmuView)
    ensures
        m.read(0xFF41) & 0x80 == 0x80,
        m.read(0xFF07) & 0xF8 == 0xF8,
        m.read(0xFF0F) & 0xE0 == 0xE0,
        m.read(0xFF00) & 0xC0 == 0xC0,
{
    reveal(MmuView::read);
    let (stat, tac, ifr, sel) = (m.ppu.stat, m.tac, m.if_register, m.joypad_select);
    let j = m.read_joypad();
    assert((stat | 0x80) & 0x80 == 0x80 && (tac | 0xF8) & 0xF8 == 0xF8 && (ifr | 0xE0) & 0xE0 == 0xE0)
        by (bit_vector);
    let b: u8 = if sel & 0x10 == 0 {
        0x0F & (m.joypad_state & 0x0F)
    } else {
        0x0F
    };
    let b2: u8 = if sel & 0x20 == 0 {
        b & ((m.joypad_state >> 4) & 0x0F)
    } else {
        b
    };
    assert((0xC0 | sel | b2) & 0xC0 == 0xC0) by (bit_vector);
}

/// LY is read-only: a write to it changes nothing.
pub proof fn law_ly_read_only(m: MmuView, v: u8)
    ensures
        m.write(0xFF44, v) == m,
{
    reveal(MmuView::write);
}

/// STAT bits 0-2 are read-only; bits 3-7 take the value written.
pub proof fn law_stat_write(m: MmuView, v: u8)
    ensures
        m.write(0xFF41, v).ppu.stat & 0x07 == m.ppu.stat & 0x07,
        m.write(0xFF41, v).ppu.stat & 0xF8 == v & 0xF8,
{
    reveal(MmuView::write);
    let s = m.ppu.stat;
    assert(((s & 0x07) | (v & 0xF8)) & 0x07 == s & 0x07 && ((s & 0x07) | (v & 0xF8)) & 0xF8 == v
        & 0xF8) by (bit_vector);
}

/// Any write to DIV resets it; TAC keeps only the three bits written.
pub proof fn law_timer_register_writes(m: MmuView, v: u8)
    ensures
        m.write(0xFF04, v).read(0xFF04) == 0,
        m.write(0xFF07, v).read(0xFF07) == v | 0xF8,
{
    reveal(MmuView::read);
    reveal(MmuView::write);
    assert((v & 0x07) | 0xF8 == v | 0xF8) by (bit_vector);
}

/// Selecting ROM bank 0 through 0x2000-0x3FFF selects bank 1: the low five
/// bank bits (MBC1) or the bank (MBC3) are never 0 afterwards.
pub proof fn law_rom_bank_zero_selects_one(m: MmuView, addr: u16, v: u8)
    requires
        0x2000 <= addr <= 0x3FFF,
    ensures
        !m.is_mbc3() ==> m.write(addr, v).rom_bank & 0x1F != 0,
        m.is_mbc3() ==> 1 <= m.write(addr, v).rom_bank <= 0x7F,
{
    reveal(MmuView::write);
    let b0 = (v & 0x1F) as usize;
    let b = if b0 == 0 {
        1usize
    } else {
        b0
    };
    let r = m.rom_bank;
    assert(b0 <= 0x1F) by (bit_vector)
        requires
            b0 == (v & 0x1F) as usize,
    ;
    assert(((r & 0x60) | b) & 0x1F == b) by (bit_vector)
        requires
            1 <= b <= 0x1F,
    ;
    let c = (v & 0x7F) as usize;
    assert(c <= 0x7F) by (bit_vector)
        requires
            c == (v & 0x7F) as usize,
    ;
}

/// The joypad register reports no button when no group is selected, the
/// direction buttons when only they are selected, and the action buttons
/// when only they are selected (bit = 0: pressed). The selection register
/// holds only bits 4-5, as every write leaves it.
pub proof fn law_joypad_groups(m: MmuView)
    requires
        m.joypad_select & 0x0F == 0,
    ensures
        m.joypad_select & 0x30 == 0x30 ==> m.read(0xFF00) & 0x0F == 0x0F,
        m.joypad_select & 0x30 == 0x20 ==> m.read(0xFF00) & 0x0F == m.joypad_state & 0x0F,
        m.joypad_select & 0x30 == 0x10 ==> m.read(0xFF00) & 0x0F == (m.joypad_state >> 4) & 0x0F,
{
    reveal(MmuView::read);
    let sel = m.joypad_select;
    let st = m.joypad_state;
    assert(sel & 0x30 == 0x30 ==> (sel & 0x10 != 0 && sel & 0x20 != 0)) by (bit_vector);
    assert(sel & 0x30 == 0x20 ==> (sel & 0x10 == 0 && sel & 0x20 != 0)) by (bit_vector);
    assert(sel & 0x30 == 0x10 ==> (sel & 0x10 != 0 && sel & 0x20 == 0)) by (bit_vector);
    assert((0xC0 | sel | 0x0Fu8) & 0x0F == 0x0F) by (bit_vector);
    assert((0xC0 | sel | (0x0F & (st & 0x0F))) & 0x0F == st & 0x0F) by (bit_vector)
        requires
            sel & 0x0F == 0,
    ;
    assert((0xC0 | sel | (0x0F & ((st >> 4) & 0x0F))) & 0x0F == (st >> 4) & 0x0F) by (bit_vector)
        requires
            sel & 0x0F == 0,
    ;
}

/// A tick only raises interrupt requests: every IF bit set before is set after.
pub proof fn law_tick_keeps_interrupt_requests(m: MmuView, cycles: u8)
    ensures
        m.tick(cycles).if_register & m.if_register == m.if_register,
{
    let m1 = MmuView { div_counter: ((m.div_counter + cycles) % 65536) as u16, ..m };
    let m2 = if m1.tac & 0x04 != 0 {
        m1.run_timer(cycles)
    } else {
        m1
    };
    let irq = m2.ppu.tick(cycles).1;
    let x = m.if_register;
    let x2 = m2.if_register;
    assert(x2 == x || x2 == x | 0x04);
    assert(((x | 0x04) | irq) & x == x && (x | irq) & x == x) by (bit_vector);
}

// ---------------------------------------------------------------------------
// PPU
/// A PPU tick requests only the VBlank (bit 0) and STAT (bit 1) interrupts.
pub proof fn law_ppu_interrupt_bits(p: PpuView, cycles: u8)
    ensures
        p.tick(cycles).1 & 0xFC == 0,
{
    let (p1, irq1) = p.advance_dots(cycles);
    let mode = PpuView::mode_for(p1.ly, p1.dots);
    let p2 = PpuView { stat: (p1.stat & 0xFC) | mode, ..p1 };
    let p3 = if mode == 3 && p2.ly < 144 {
        p2.render_scanline()
    } else {
        p2
    };
    let irq2 = PpuView::mode_interrupts(p3.stat, mode);
    assert(irq1 <= 3 && irq2 <= 3);
    assert((irq1 | irq2) & 0xFC == 0) by (bit_vector)
        requires
            irq1 <= 3,
            irq2 <= 3,
    ;
    assert(irq1 & 0xFC == 0) by (bit_vector)
        requires
            irq1 <= 3,
    ;
    assert(0u8 & 0xFC == 0) by (bit_vector);
}

/// While the LCD is on, after a tick the STAT mode bits give the mode of
/// the current line and dot, and after a line ends STAT bit 2 tells
/// whether LY equals LYC.
pub proof fn law_ppu_stat_tracks_position(p: PpuView, cycles: u8)
    requires
        p.lcd_on(),
        p.tick_ok(cycles),
    ensures
        ({
            let q = p.tick(cycles).0;
            &&& q.stat & 0x03 == PpuView::mode_for(q.ly, q.dots)
            &&& p.dots + cycles >= 456 ==> (q.stat & 0x04 != 0 <==> q.ly == q.lyc)
        }),
{
    let (p1, irq1) = p.advance_dots(cycles);
    let mode = PpuView::mode_for(p1.ly, p1.dots);
    let s1 = p1.stat;
    assert(((s1 & 0xFC) | mode) & 0x03 == mode && ((s1 & 0xFC) | mode) & 0x04 == s1 & 0x04)
        by (bit_vector)
        requires
            mode <= 3,
    ;
    let s0 = p.stat;
    assert((s0 | 0x04) & 0x04 != 0 && (s0 & 0xFB) & 0x04 == 0) by (bit_vector);
    let p2 = PpuView { stat: (p1.stat & 0xFC) | mode, ..p1 };
    if mode == 3 && p2.ly < 144 {
        lemma_render_scanline_keeps_registers(p2);
    }
}

/// While the LCD is on, a tick keeps LY below 154 and moves it on by at
/// most one line (from 153 back to 0), and leaves STAT bits 3 to 7 as they
/// were.
pub proof fn law_ppu_tick_line_advance(p: PpuView, cycles: u8)
    requires
        p.lcd_on(),
        p.ly < 154,
    ensures
        ({
            let q = p.tick(cycles).0;
            &&& q.ly < 154
            &&& q.ly == p.ly || q.ly == (p.ly + 1) % 154
            &&& q.stat & 0xF8 == p.stat & 0xF8
        }),
{
    let (p1, irq1) = p.advance_dots(cycles);
    let mode = PpuView::mode_for(p1.ly, p1.dots);
    let s0 = p.stat;
    let s1 = p1.stat;
    assert((s0 | 0x04) & 0xF8 == s0 & 0xF8 && (s0 & 0xFB) & 0xF8 == s0 & 0xF8 && ((s1 & 0xFC)
        | mode) & 0xF8 == s1 & 0xF8) by (bit_vector)
        requires
            mode <= 3,
    ;
    let p2 = PpuView { stat: (p1.stat & 0xFC) | mode, ..p1 };
    if mode == 3 && p2.ly < 144 {
        lemma_render_scanline_keeps_registers(p2);
    }
}

/// Rendering changes only the frame buffer and the window line counter.
proof fn lemma_render_scanline_keeps_registers(p: PpuView)
    ensures
        p.render_scanline() == (PpuView {
            framebuffer: p.render_scanline().framebuffer,
            window_line: p.render_scanline().window_line,
            ..p
        }),
{
}

/// Drawing sprites changes only the current line of the frame buffer.
proof fn lemma_sprites_keep_other_lines(
    p: PpuView,
    i: nat,
    count: nat,
    fb: Seq<u32>,
    ids: Seq<u8>,
    k: int,
)
    requires
        !(p.ly * 160 <= k < p.ly * 160 + 160),
    ensures
        p.draw_sprites_from(i, count, fb, ids).len() == fb.len(),
        0 <= k < fb.len() ==> p.draw_sprites_from(i, count, fb, ids)[k] == fb[k],
    decreases 40 - i,
{
    if i >= 40 || count >= 10 {
    } else if p.sprite_on_line(i as int) {
        lemma_sprites_keep_other_lines(p, i + 1, count + 1, p.draw_sprite(i as int, fb, ids), ids, k);
    } else {
        lemma_sprites_keep_other_lines(p, i + 1, count, fb, ids, k);
    }
}

/// Rendering a line changes no pixel of the frame buffer outside that line.
pub proof fn law_render_scanline_only_current_line(p: PpuView, k: int)
    requires
        0 <= k < p.framebuffer.len(),
        !(p.ly * 160 <= k < p.ly * 160 + 160),
    ensures
        p.render_scanline().framebuffer.len() == p.framebuffer.len(),
        p.render_scanline().framebuffer[k] == p.framebuffer[k],
{
    if p.ly < 144 {
        let p0 = p.line_start();
        let fb1 = p0.background_row();
        let p1 = PpuView {
            framebuffer: fb1,
            window_line: if !p0.window_visible() {
                p0.window_line
            } else if p0.window_line == 255 {
                0
            } else {
                (p0.window_line + 1) as u8
            },
            ..p0
        };
        assert(fb1[k] == p.framebuffer[k]);
        lemma_sprites_keep_other_lines(p1, 0, 0, fb1, p0.line_color_ids(), k);
    }
}

/// With the window off on the current line, drawing the line is drawing its
/// background and then calling `render_sprites`: the sprite priority check
/// sees the background just drawn.
pub proof fn law_render_scanline_is_background_then_sprites(p: PpuView)
    requires
        p.ly < 144,
        !p.window_visible(),
    ensures
        p.render_scanline() == (PpuView {
            framebuffer: p.line_start().background_row(),
            ..p.line_start()
        }).render_sprites(),
{
    let p0 = p.line_start();
    let p1 = PpuView { framebuffer: p0.background_row(), ..p0 };
    assert(p1.line_color_ids() =~= p0.line_color_ids());
}

/// Sprites `i` and on, from a count of `count` sprites found on the line,
/// draw the same in `p` and `q` when `count` is the number found before `i`
/// and the two differ only in the OAM entries of sprites with ten others
/// before them on the line.
proof fn lemma_late_sprites_ignored(
    p: PpuView,
    q: PpuView,
    i: nat,
    count: nat,
    fb: Seq<u32>,
    ids: Seq<u8>,
)
    requires
        p.oam.len() == 160,
        q.oam.len() == 160,
        q == (PpuView { oam: q.oam, ..p }),
        forall|k: int|
            0 <= k < 160 && q.oam[k] != p.oam[k] ==> p.sprites_on_line_before(k / 4) >= 10,
        i <= 40,
        count == p.sprites_on_line_before(i as int),
    ensures
        q.draw_sprites_from(i, count, fb, ids) == p.draw_sprites_from(i, count, fb, ids),
    decreases 40 - i,
{
    if i >= 40 || count >= 10 {
    } else {
        let ii = i as int;
        assert((4 * ii) / 4 == ii && (4 * ii + 1) / 4 == ii && (4 * ii + 2) / 4 == ii && (4 * ii
            + 3) / 4 == ii);
        assert(q.oam[4 * ii] == p.oam[4 * ii]);
        assert(q.oam[4 * ii + 1] == p.oam[4 * ii + 1]);
        assert(q.oam[4 * ii + 2] == p.oam[4 * ii + 2]);
        assert(q.oam[4 * ii + 3] == p.oam[4 * ii + 3]);
        assert(q.sprite_on_line(ii) == p.sprite_on_line(ii));
        assert(q.draw_sprite(ii, fb, ids) =~= p.draw_sprite(ii, fb, ids)) by {
            assert forall|sx: int| #[trigger] q.sprite_pixel(ii, sx, ids) == p.sprite_pixel(ii, sx, ids) by {
                assert(q.sprite_row_addr(ii) == p.sprite_row_addr(ii));
            }
        }
        if p.sprite_on_line(ii) {
            lemma_late_sprites_ignored(p, q, i + 1, count + 1, p.draw_sprite(ii, fb, ids), ids);
        } else {
            lemma_late_sprites_ignored(p, q, i + 1, count, fb, ids);
        }
    }
}

/// At most ten sprites are drawn on a line, the first ten in OAM order that
/// cover it: the OAM entries of the sprites after those ten can hold
/// anything without changing what `render_sprites` draws.
pub proof fn law_sprites_after_the_tenth_are_ignored(p: PpuView, q: PpuView)
    requires
        p.oam.len() == 160,
        q.oam.len() == 160,
        q == (PpuView { oam: q.oam, ..p }),
        forall|k: int|
            0 <= k < 160 && q.oam[k] != p.oam[k] ==> p.sprites_on_line_before(k / 4) >= 10,
    ensures
        q.render_sprites() == (PpuView { oam: q.oam, ..p.render_sprites() }),
{
    assert(q.line_color_ids() =~= p.line_color_ids());
    if !(p.ly >= 144 || p.lcdc & 0x02 == 0) {
        lemma_late_sprites_ignored(p, q, 0, 0, p.framebuffer, p.line_color_ids());
    }
}

// ---------------------------------------------------------------------------
// CPU
/// A push stores the high byte at SP - 1 and the low byte at SP - 2, and a
/// pop then gives back the word and restores SP, when the two stack bytes
/// lie in plain RAM.
pub proof fn law_push_then_pop(s: CpuView, v: u16)
    requires
        s.mmu.wf(),
        is_plain_ram(wrap16(s.sp - 1)),
        is_plain_ram(wrap16(s.sp - 2)),
    ensures
        s.push(v).sp == wrap16(s.sp - 2),
        s.push(v).mmu.read(wrap16(s.sp - 1)) == (v / 256) as u8,
        s.push(v).mmu.read(wrap16(s.sp - 2)) == (v % 256) as u8,
        s.push(v).pop().1 == v,
        s.push(v).pop().0.sp == s.sp,
        s.push(v).pop().0 == (CpuView { sp: s.sp, ..s.push(v) }),
{
    reveal(wrap16);
    let sp1 = wrap16(s.sp - 1);
    let sp2 = wrap16(sp1 - 1);
    assert(sp2 == wrap16(s.sp - 2));
    let m1 = s.mmu.write(sp1, (v / 256) as u8);
    lemma_write_keeps_wf(s.mmu, sp1, (v / 256) as u8);
    law_ram_read_after_write(s.mmu, sp1, sp2, (v / 256) as u8);
    law_ram_read_after_write(m1, sp2, sp1, (v % 256) as u8);
    assert(wrap16(sp2 + 1) == sp1);
    assert(wrap16(sp1 + 1) == s.sp);
}

/// The opcode fields of PUSH rr and POP rr.
proof fn lemma_push_pop_opcodes(p: u8)
    requires
        p < 4,
    ensures
        op_x((0xC5 + 16 * p) as u8) == 3,
        op_y((0xC5 + 16 * p) as u8) == 2 * p,
        op_z((0xC5 + 16 * p) as u8) == 5,
        op_x((0xC1 + 16 * p) as u8) == 3,
        op_y((0xC1 + 16 * p) as u8) == 2 * p,
        op_z((0xC1 + 16 * p) as u8) == 1,
{
    if p == 0 {
        assert(op_x(0xC5) == 3 && op_y(0xC5) == 0 && op_z(0xC5) == 5);
        assert(op_x(0xC1) == 3 && op_y(0xC1) == 0 && op_z(0xC1) == 1);
    } else if p == 1 {
        assert(op_x(0xD5) == 3 && op_y(0xD5) == 2 && op_z(0xD5) == 5);
        assert(op_x(0xD1) == 3 && op_y(0xD1) == 2 && op_z(0xD1) == 1);
    } else if p == 2 {
        assert(op_x(0xE5) == 3 && op_y(0xE5) == 4 && op_z(0xE5) == 5);
        assert(op_x(0xE1) == 3 && op_y(0xE1) == 4 && op_z(0xE1) == 1);
    } else {
        assert(op_x(0xF5) == 3 && op_y(0xF5) == 6 && op_z(0xF5) == 5);
        assert(op_x(0xF1) == 3 && op_y(0xF1) == 6 && op_z(0xF1) == 1);
    }
}

/// The word that PUSH rr pushes.
pub open spec fn push_operand(s: CpuView, p: u8) -> u16 {
    if p == 3 {
        s.registers.af()
    } else {
        s.reg16(p)
    }
}

/// PUSH rr pushes the pair in 16 T-cycles.
proof fn lemma_execute_push(s: CpuView, p: u8)
    requires
        p < 4,
    ensures
        s.execute((0xC5 + 16 * p) as u8) == (s.push(push_operand(s, p)), 16u8),
{
    lemma_push_pop_opcodes(p);
    assert(s.execute((0xC5 + 16 * p) as u8) == s.block3((2 * p) as u8, 5));
}

/// POP rr pops into the pair in 12 T-cycles.
proof fn lemma_execute_pop(t: CpuView, p: u8)
    requires
        p < 4,
    ensures
        ({
            let (s1, val) = t.pop();
            t.execute((0xC1 + 16 * p) as u8) == (if p == 3 {
                (s1.with_regs(s1.registers.with_af(val)), 12u8)
            } else {
                (s1.set_reg16(p, val), 12u8)
            })
        }),
{
    lemma_push_pop_opcodes(p);
    assert(t.execute((0xC1 + 16 * p) as u8) == t.block3((2 * p) as u8, 1));
}

/// PUSH rr followed by POP rr (BC, DE, HL, AF for `p` = 0..3) gives the
/// register pair back, AF with the low four bits of F cleared, and
/// restores SP; PUSH takes 16 T-cycles and POP 12.
pub proof fn law_push_pop_instructions(s: CpuView, p: u8)
    requires
        p < 4,
        s.mmu.wf(),
        is_plain_ram(wrap16(s.sp - 1)),
        is_plain_ram(wrap16(s.sp - 2)),
    ensures
        ({
            let (t, c1) = s.execute((0xC5 + 16 * p) as u8);
            let (u, c2) = t.execute((0xC1 + 16 * p) as u8);
            &&& c1 == 16
            &&& c2 == 12
            &&& t.sp == wrap16(s.sp - 2)
            &&& u.sp == s.sp
            &&& u.pc == s.pc
            &&& p < 3 ==> u.reg16(p) == s.reg16(p)
            &&& p == 3 ==> u.registers.af() == s.registers.af() & 0xFFF0
        }),
{
    let v = push_operand(s, p);
    lemma_execute_push(s, p);
    let t = s.push(v);
    lemma_execute_pop(t, p);
    law_push_then_pop(s, v);
    let (s1, w) = t.pop();
    if p == 3 {
        law_af_low_bits_zero(s1.registers, w);
    } else {
        law_register_pair_roundtrip(s1.registers, w);
    }
}

/// The opcode fields of CP r, SUB r, CP d8 and SUB d8.
proof fn lemma_cp_sub_opcodes(z: u8)
    requires
        z <= 7,
    ensures
        op_x((0xB8 + z) as u8) == 2 && op_y((0xB8 + z) as u8) == 7 && op_z((0xB8 + z) as u8) == z,
        op_x((0x90 + z) as u8) == 2 && op_y((0x90 + z) as u8) == 2 && op_z((0x90 + z) as u8) == z,
        op_x(0xFE) == 3 && op_y(0xFE) == 7 && op_z(0xFE) == 6,
        op_x(0xD6) == 3 && op_y(0xD6) == 2 && op_z(0xD6) == 6,
{
}

/// The CP instructions (CP r and CP d8) set the flags exactly as the SUB
/// instructions on the same operand, take as long, and keep A: they change
/// F alone (and PC past an immediate operand).
pub proof fn law_cp_instruction_is_sub_without_result(s: CpuView, z: u8)
    requires
        z <= 7,
    ensures
        ({
            let (c, cc) = s.execute((0xB8 + z) as u8);
            let (d, dc) = s.execute((0x90 + z) as u8);
            &&& c.registers.f == d.registers.f
            &&& cc == dc
            &&& c == s.with_regs(Registers { f: d.registers.f, ..s.registers })
        }),
        ({
            let (c, cc) = s.execute(0xFE);
            let (d, dc) = s.execute(0xD6);
            &&& c.registers.f == d.registers.f
            &&& cc == dc
            &&& c == (CpuView { pc: d.pc, ..s.with_regs(Registers { f: d.registers.f, ..s.registers }) })
        }),
{
    lemma_cp_sub_opcodes(z);
    law_compare_is_subtract_without_result(s.registers, s.reg8(z));
    let (s1, operand) = s.fetch_byte();
    law_compare_is_subtract_without_result(s1.registers, operand);
    assert(s.execute((0xB8 + z) as u8).0.registers =~= Registers {
        f: s.execute((0x90 + z) as u8).0.registers.f,
        ..s.registers
    });
}

/// ADD or SUB of two BCD bytes followed by DAA leaves in A the BCD form of
/// the decimal sum or difference modulo 100, with C set when the sum
/// reaches 100 or the difference is negative; DAA takes 4 T-cycles.
pub proof fn law_alu_then_daa_instruction(s: CpuView, n: u8)
    requires
        is_bcd(s.registers.a),
        is_bcd(n),
    ensures
        ({
            let (t, c) = s.alu(0, n).execute(0x27);
            &&& c == 4
            &&& is_bcd(t.registers.a)
            &&& bcd_value(t.registers.a) == (bcd_value(s.registers.a) + bcd_value(n)) % 100
            &&& t.registers.carry_flag() == (bcd_value(s.registers.a) + bcd_value(n) >= 100)
        }),
        ({
            let (t, c) = s.alu(2, n).execute(0x27);
            &&& c == 4
            &&& is_bcd(t.registers.a)
            &&& bcd_value(t.registers.a) == (bcd_value(s.registers.a) - bcd_value(n)) % 100
            &&& t.registers.carry_flag() == (bcd_value(s.registers.a) < bcd_value(n))
        }),
{
    assert(op_x(0x27) == 0 && op_y(0x27) == 4 && op_z(0x27) == 7);
    law_daa_after_add(s.registers, n);
    law_daa_after_sub(s.registers, n);
}

/// INC r16 and DEC r16 change no flag.
pub proof fn law_inc_dec_16_keep_flags(s: CpuView, y: u8)
    requires
        y <= 7,
    ensures
        s.block0(y, 3).0.registers.f == s.registers.f,
        s.block0(y, 3).1 == 8,
{
}

/// The step of a CALL a16 (opcode 0xCD).
proof fn lemma_step_call(s: CpuView)
    requires
        s.mmu.read(s.pc) == 0xCD,
    ensures
        ({
            let s1 = CpuView { pc: wrap16(wrap16(s.pc + 1) + 2), ..s };
            s.step() == (CpuView { pc: s.mmu.read_word(wrap16(s.pc + 1)), ..s1.push(s1.pc) }, 24u8)
        }),
{
    reveal(CpuView::step);
    let op: u8 = 0xCD;
    assert(op_x(op) == 3 && op_y(op) == 1 && op_z(op) == 5);
}

/// The step of a RET (opcode 0xC9).
proof fn lemma_step_ret(s: CpuView)
    requires
        s.mmu.read(s.pc) == 0xC9,
    ensures
        ({
            let (s1, target) = CpuView { pc: wrap16(s.pc + 1), ..s }.pop();
            s.step() == (CpuView { pc: target, ..s1 }, 16u8)
        }),
{
    reveal(CpuView::step);
    let op: u8 = 0xC9;
    assert(op_x(op) == 3 && op_y(op) == 1 && op_z(op) == 1);
}

/// CALL a16 followed by the RET at its target comes back to the
/// instruction after the CALL, with SP restored, when the two stack bytes
/// lie in plain RAM apart from that RET and the RET can be read.
#[verifier::rlimit(40)]
pub proof fn law_call_then_ret(s: CpuView)
    requires
        s.mmu.wf(),
        s.step_ok(),
        s.mmu.read(s.pc) == 0xCD,
        is_plain_ram(wrap16(s.sp - 1)),
        is_plain_ram(wrap16(s.sp - 2)),
        s.mmu.read(s.mmu.read_word(wrap16(s.pc + 1))) == 0xC9,
        s.mmu.read_ok(s.mmu.read_word(wrap16(s.pc + 1))),
        s.mmu.read_word(wrap16(s.pc + 1)) != wrap16(s.sp - 1),
        s.mmu.read_word(wrap16(s.pc + 1)) != wrap16(s.sp - 2),
    ensures
        s.step().1 == 24,
        s.step().0.step_ok(),
        s.step().0.step().0.pc == wrap16(s.pc + 3),
        s.step().0.step().0.sp == s.sp,
        s.step().0.step().1 == 16,
{
    let addr = s.mmu.read_word(wrap16(s.pc + 1));
    let s1 = CpuView { pc: wrap16(wrap16(s.pc + 1) + 2), ..s };
    let pushed = s1.push(s1.pc);
    let t = CpuView { pc: addr, ..pushed };
    assert(s.step() == (t, 24u8)) by {
        lemma_step_call(s);
    }
    assert(s1.pc == wrap16(s.pc + 3)) by {
        let op: u8 = 0xCD;
        assert(op_x(op) == 3 && op_y(op) == 1 && op_z(op) == 5);
        reveal(wrap16);
    }
    let sp1 = wrap16(s.sp - 1);
    let sp2 = wrap16(sp1 - 1);
    assert(sp2 == wrap16(s.sp - 2)) by {
        reveal(wrap16);
    }
    let hi = (s1.pc / 256) as u8;
    let lo = (s1.pc % 256) as u8;
    let m1 = s1.mmu.write(sp1, hi);
    assert(t.mmu == m1.write(sp2, lo));
    assert(t.mmu.read(t.pc) == 0xC9) by {
        lemma_write_keeps_wf(s1.mmu, sp1, hi);
        law_ram_read_after_write(s1.mmu, sp1, addr, hi);
        law_ram_read_after_write(m1, sp2, addr, lo);
    }
    lemma_write_keeps_bank(s1.mmu, sp1, hi);
    lemma_write_keeps_bank(m1, sp2, lo);
    assert(m1.read_ok(addr));
    assert(t.mmu.read_ok(addr));
    assert(t.sp == sp2);
    assert(wrap16(t.sp + 1) == sp1) by {
        reveal(wrap16);
    }
    assert(t.mmu.read_ok(t.sp));
    assert(t.mmu.read_ok(sp1));
    assert(t.step_ok()) by {
        let ret: u8 = 0xC9;
        assert(op_x(ret) == 3 && op_y(ret) == 1 && op_z(ret) == 1);
    }
    let u = CpuView { pc: wrap16(t.pc + 1), ..t };
    assert(t.step().0.pc == wrap16(s.pc + 3) && t.step().0.sp == s.sp && t.step().1 == 16) by {
        lemma_step_ret(t);
        law_push_then_pop(s1, s1.pc);
        assert(u.pop().1 == pushed.pop().1 && u.pop().0.sp == pushed.pop().0.sp);
    }
}

/// Changing one flag keeps the low four bits of F.
broadcast proof fn lemma_zero_flag_keeps_low_bits(r: Registers, v: bool)
    ensures
        #[trigger] r.with_zero_flag(v).f & 0x0F == r.f & 0x0F,
{
    law_flag_roundtrip(r, v);
}

broadcast proof fn lemma_sub_flag_keeps_low_bits(r: Registers, v: bool)
    ensures
        #[trigger] r.with_sub_flag(v).f & 0x0F == r.f & 0x0F,
{
    law_flag_roundtrip(r, v);
}

broadcast proof fn lemma_half_carry_flag_keeps_low_bits(r: Registers, v: bool)
    ensures
        #[trigger] r.with_half_carry_flag(v).f & 0x0F == r.f & 0x0F,
{
    law_flag_roundtrip(r, v);
}

broadcast proof fn lemma_carry_flag_keeps_low_bits(r: Registers, v: bool)
    ensures
        #[trigger] r.with_carry_flag(v).f & 0x0F == r.f & 0x0F,
{
    law_flag_roundtrip(r, v);
}

broadcast proof fn lemma_af_clears_low_bits(r: Registers, v: u16)
    ensures
        #[trigger] r.with_af(v).f & 0x0F == 0,
{
    law_af_low_bits_zero(r, v);
}

/// The low four bits of F stay 0: no instruction sets them.
pub proof fn law_flag_low_bits_stay_zero(s: CpuView)
    requires
        s.step_ok(),
        s.registers.f & 0x0F == 0,
    ensures
        s.step().0.registers.f & 0x0F == 0,
{
    reveal(CpuView::step);
    broadcast use {
        lemma_zero_flag_keeps_low_bits,
        lemma_sub_flag_keeps_low_bits,
        lemma_half_carry_flag_keeps_low_bits,
        lemma_carry_flag_keeps_low_bits,
        lemma_af_clears_low_bits,
    };

    let (s1, opcode) = s.fetch_byte();
    let (x, y, z) = (op_x(opcode), op_y(opcode), op_z(opcode));
    if x == 3 && z == 3 && y == 1 {
        let (s2, cb) = s1.fetch_byte();
        assert(s2.execute_cb(cb).0.registers.f & 0x0F == 0);
    } else if x == 0 && z == 7 {
        assert(s1.block0(y, z).0.registers.f & 0x0F == 0);
    } else {
        assert(s1.execute(opcode).0.registers.f & 0x0F == 0);
    }
}

// ---------------------------------------------------------------------------
// Instruction, video, timer and cartridge behaviour in terms of their inputs
/// Adding to a value reduced modulo 2^16 gives the same 16-bit result.
proof fn lemma_wrap16_assoc(x: int, y: int)
    ensures
        wrap16(wrap16(x) + y) == wrap16(x + y),
{
    reveal(wrap16);
    assert((((x % 0x10000) as u16) + y) % 0x10000 == (x + y) % 0x10000) by (nonlinear_arith);
}

/// JR cc, e8 (opcodes 0x20, 0x28, 0x30, 0x38: NZ, Z, NC, C). When its
/// condition holds (NZ: Z clear, Z: Z set, NC: C clear, C: C set) PC moves
/// to the next instruction plus the signed offset, in 12 T-cycles;
/// otherwise to the next instruction, in 8. Nothing else changes.
pub proof fn law_jr_conditional(s: CpuView, cc: u8)
    requires
        cc <= 3,
        s.mmu.read(s.pc) == 0x20 + 8 * cc,
    ensures
        ({
            let taken = if cc == 0 {
                !s.registers.zero_flag()
            } else if cc == 1 {
                s.registers.zero_flag()
            } else if cc == 2 {
                !s.registers.carry_flag()
            } else {
                s.registers.carry_flag()
            };
            let offset = s.mmu.read(wrap16(s.pc + 1));
            s.step() == (if taken {
                (CpuView { pc: wrap16(s.pc + 2 + signed_byte(offset)), ..s }, 12u8)
            } else {
                (CpuView { pc: wrap16(s.pc + 2), ..s }, 8u8)
            })
        }),
{
    reveal(CpuView::step);
    let op = (0x20 + 8 * cc) as u8;
    assert(op_x(op) == 0 && op_y(op) == 4 + cc && op_z(op) == 0);
    let offset = s.mmu.read(wrap16(s.pc + 1));
    lemma_wrap16_assoc(s.pc + 1, 1);
    lemma_wrap16_assoc(s.pc + 2, signed_byte(offset));
}

/// Outside the window, background pixel `x` of line LY has the colour id
/// of map pixel ((x + SCX) mod 256, (LY + SCY) mod 256) of the tile map
/// chosen by LCDC bit 3 (0x9800 or 0x9C00): the id is twice bit 7 - (column
/// mod 8) of the second byte of the tile's row plus that bit of the first,
/// the tile's data at 0x8000 + 16 * index (LCDC bit 4 set) or at 0x9000 +
/// 16 * signed index (clear).
pub proof fn law_background_pixel_source(p: PpuView, x: int)
    requires
        0 <= x < 160,
        !(p.lcdc & 0x20 != 0 && p.ly >= p.wy && p.wx <= 166 && x + 7 >= p.wx),
    ensures
        ({
            let mx = (x + p.scx) % 256;
            let my = (p.ly + p.scy) % 256;
            let map: int = if p.lcdc & 0x08 != 0 {
                0x1C00
            } else {
                0x1800
            };
            let tile = p.vram[map + (my / 8) * 32 + mx / 8];
            let data: int = if p.lcdc & 0x10 != 0 {
                tile * 16
            } else {
                0x1000 + signed_byte(tile) * 16
            };
            let lo = p.vram[data + (my % 8) * 2];
            let hi = p.vram[data + (my % 8) * 2 + 1];
            let b = (7 - mx % 8) as u8;
            p.bg_color_id(x) == ((hi >> b) & 1) * 2 + ((lo >> b) & 1)
        }),
{
    let (mx, my, base) = p.map_coords(x);
    let tile_index = p.vram[base + (my / 8) * 32 + mx / 8];
    let addr = p.tile_data_base(tile_index) + (my % 8) * 2;
    lemma_color_id_bound(p.vram[addr], p.vram[addr + 1], (7 - mx % 8) as u8);
}

/// While the LCD is on, a tick that takes STAT from another mode into mode
/// 3 (pixel transfer) draws the current line: the state after it is that
/// line rendered over the state with the new STAT, dot counter and LY.
pub proof fn law_tick_draws_the_line_entering_mode_3(p: PpuView, cycles: u8)
    requires
        p.lcd_on(),
        p.stat & 0x03 != 3,
    ensures
        ({
            let q = p.tick(cycles).0;
            q.stat & 0x03 == 3 ==> q.ly < 144 && q == (PpuView {
                stat: q.stat,
                dots: q.dots,
                ly: q.ly,
                ..p
            }).render_scanline()
        }),
{
    let (p1, irq1) = p.advance_dots(cycles);
    let mode = PpuView::mode_for(p1.ly, p1.dots);
    lemma_stat_bits(p.stat, mode);
    lemma_stat_bits(p1.stat, mode);
    assert(p1.stat & 0x03 == p.stat & 0x03);
    let p2 = PpuView { stat: (p1.stat & 0xFC) | mode, ..p1 };
    if mode == 3 && p2.ly < 144 {
        lemma_render_scanline_keeps_registers(p2);
    }
}

/// TIMA after `k` increments from `t` with no overflow is `t + k`.
proof fn lemma_tima_counts_up(t: u8, tma: u8, k: nat)
    requires
        t + k <= 255,
    ensures
        crate::mmu::tima_after(t, tma, k) == t + k,
        !crate::mmu::tima_overflows(t, tma, k),
    decreases k,
{
    if k > 0 {
        lemma_tima_counts_up(t, tma, (k - 1) as nat);
    }
}

/// With the timer on (TAC bit 2) and no cycles left over, a tick of `n`
/// T-cycles that does not overflow TIMA adds n / P to it and leaves n mod P
/// cycles over, P being 1024, 16, 64 or 256 T-cycles for TAC bits 0-1 =
/// 0, 1, 2, 3.
pub proof fn law_timer_rate(m: MmuView, n: u8)
    requires
        m.tac & 0x04 != 0,
        m.tima_counter == 0,
        m.tima + (n as int) / (if m.tac & 0x03 == 0 {
            1024int
        } else if m.tac & 0x03 == 1 {
            16int
        } else if m.tac & 0x03 == 2 {
            64int
        } else {
            256int
        }) <= 255,
    ensures
        ({
            let period = if m.tac & 0x03 == 0 {
                1024int
            } else if m.tac & 0x03 == 1 {
                16int
            } else if m.tac & 0x03 == 2 {
                64int
            } else {
                256int
            };
            &&& m.tick(n).tima == m.tima + (n as int) / period
            &&& m.tick(n).tima_counter == (n as int) % period
        }),
{
    let m1 = MmuView { div_counter: ((m.div_counter + n) % 65536) as u16, ..m };
    let thr = crate::mmu::timer_threshold(m1.tac);
    let k: nat = if n >= thr {
        ((n as int) / thr) as nat
    } else {
        0
    };
    assert(k == (n as int) / thr);
    lemma_tima_counts_up(m.tima, m.tma, k);
}

/// The cartridge type byte (header 0x0147) selects the bank controller:
/// MBC1 for 0x01-0x03, MBC3 for 0x0F-0x13, none for every other value.
pub proof fn law_cartridge_type_table(rom: Seq<u8>)
    requires
        rom.len() >= 0x150,
    ensures
        ({
            let t = rom[0x0147];
            cartridge_from_rom(rom).mbc_type == (if t == 0x01 || t == 0x02 || t == 0x03 {
                MbcType::Mbc1
            } else if t == 0x0F || t == 0x10 || t == 0x11 || t == 0x12 || t == 0x13 {
                MbcType::Mbc3
            } else {
                MbcType::RomOnly
            })
        }),
{
}

/// Inside the window, pixel `x` of line LY has the colour id of window map
/// pixel (x - (WX - 7), window line) of the map chosen by LCDC bit 6
/// (0x9800 or 0x9C00), with the tile data addressing of LCDC bit 4.
pub proof fn law_window_pixel_source(p: PpuView, x: int)
    requires
        0 <= x < 160,
        p.lcdc & 0x20 != 0,
        p.ly >= p.wy,
        p.wx <= 166,
        x + 7 >= p.wx,
    ensures
        ({
            let mx = if p.wx >= 7 {
                x - (p.wx - 7)
            } else {
                x
            };
            let my = p.window_line as int;
            let map: int = if p.lcdc & 0x40 != 0 {
                0x1C00
            } else {
                0x1800
            };
            let tile = p.vram[map + (my / 8) * 32 + mx / 8];
            let data: int = if p.lcdc & 0x10 != 0 {
                tile * 16
            } else {
                0x1000 + signed_byte(tile) * 16
            };
            let lo = p.vram[data + (my % 8) * 2];
            let hi = p.vram[data + (my % 8) * 2 + 1];
            let b = (7 - mx % 8) as u8;
            p.bg_color_id(x) == ((hi >> b) & 1) * 2 + ((lo >> b) & 1)
        }),
{
    let (mx, my, base) = p.map_coords(x);
    let tile_index = p.vram[base + (my / 8) * 32 + mx / 8];
    let addr = p.tile_data_base(tile_index) + (my % 8) * 2;
    lemma_color_id_bound(p.vram[addr], p.vram[addr + 1], (7 - mx % 8) as u8);
}

/// A background/window pixel is shown in the shade that BGP gives its
/// colour id (bits 2 * id and 2 * id + 1), as the RGB values 0xFF9BBC0F,
/// 0xFF8BAC0F, 0xFF306230 and 0xFF0F380F for shades 0 to 3.
pub proof fn law_background_shade(p: PpuView, x: int)
    ensures
        ({
            let shade = (p.bgp >> ((p.bg_color_id(x) * 2) as u8)) & 0x03;
            p.bg_pixel(x) == (if shade == 0 {
                0xFF9BBC0Fu32
            } else if shade == 1 {
                0xFF8BAC0Fu32
            } else if shade == 2 {
                0xFF306230u32
            } else {
                0xFF0F380Fu32
            })
        }),
{
}

/// While the LCD is on, the STAT mode after a tick is 1 (VBlank) on lines
/// 144 and below, else 2 (OAM search) for dots 0-79 of the line, 3 (pixel
/// transfer) for dots 80-251 and 0 (HBlank) for the rest.
pub proof fn law_ppu_mode_timing(p: PpuView, cycles: u8)
    requires
        p.lcd_on(),
        p.tick_ok(cycles),
    ensures
        ({
            let q = p.tick(cycles).0;
            q.stat & 0x03 == (if q.ly >= 144 {
                1u8
            } else if q.dots < 80 {
                2u8
            } else if q.dots < 252 {
                3u8
            } else {
                0u8
            })
        }),
{
    law_ppu_stat_tracks_position(p, cycles);
}

/// While the LCD is on, a line lasts 456 dots and a frame 154 lines: a tick
/// within a line adds its dots, and one that reaches the end of the line
/// moves LY on by one (from 153 back to 0) with the dots left over.
pub proof fn law_ppu_dot_counting(p: PpuView, cycles: u8)
    requires
        p.lcd_on(),
        p.dots < 456,
        p.ly < 154,
    ensures
        ({
            let q = p.tick(cycles).0;
            &&& q.dots == (p.dots + cycles) % 456
            &&& q.ly == (if p.dots + cycles >= 456 {
                (p.ly + 1) % 154
            } else {
                p.ly as int
            })
        }),
{
    let (p1, irq1) = p.advance_dots(cycles);
    let mode = PpuView::mode_for(p1.ly, p1.dots);
    let p2 = PpuView { stat: (p1.stat & 0xFC) | mode, ..p1 };
    if mode == 3 && p2.ly < 144 {
        lemma_render_scanline_keeps_registers(p2);
    }
}

/// A tick adds its T-cycles to DIV's 16-bit counter, wrapping at 65536.
pub proof fn law_div_counts_every_cycle(m: MmuView, n: u8)
    ensures
        m.tick(n).div_counter == (m.div_counter + n) % 65536,
{
}

/// The RAM size byte (header 0x0149) gives the SRAM banks of 8 KB: 1 for
/// 0x02, 4 for 0x03, 16 for 0x04, none for every other value.
pub proof fn law_cartridge_ram_size_table(rom: Seq<u8>)
    requires
        rom.len() >= 0x150,
    ensures
        ({
            let r = rom[0x0149];
            let c = cartridge_from_rom(rom);
            &&& c.sram.len() == (if r == 0x02 {
                1nat
            } else if r == 0x03 {
                4nat
            } else if r == 0x04 {
                16nat
            } else {
                0nat
            })
            &&& forall|i: int, j: int|
                0 <= i < c.sram.len() && 0 <= j < 0x2000 ==> c.sram[i].len() == 0x2000
                    && #[trigger] c.sram[i][j] == 0
        }),
{
}

} // verus!
