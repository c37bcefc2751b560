//! The Sharp LR35902 CPU: registers, instruction decoding and execution.
use vstd::prelude::*;
use crate::mmu::{Mmu, MmuView, lemma_write_keeps_bank};
use crate::arith::{wrap8, wrap16, signed_byte, pair, lemma_wrap8_assoc, lemma_pair_bits, lemma_split_bits};

verus! {

pub struct Registers {
    /// The accumulator.
    pub a: u8,
    pub b: u8,
    pub c: u8,
    pub d: u8,
    pub e: u8,
    /// The flags: Z (bit 7), N (bit 6), H (bit 5), C (bit 4); bits 0-3 read 0.
    pub f: u8,
    pub h: u8,
    pub l: u8,
}

/// The register values after the boot ROM.
pub open spec fn registers_power_on() -> Registers {
    Registers { a: 0x01, b: 0x00, c: 0x13, d: 0x00, e: 0xD8, f: 0xB0, h: 0x01, l: 0x4D }
}

impl Registers {
    pub open spec fn bc(self) -> u16 {
        pair(self.b, self.c)
    }

    pub open spec fn de(self) -> u16 {
        pair(self.d, self.e)
    }

    pub open spec fn hl(self) -> u16 {
        pair(self.h, self.l)
    }

    pub open spec fn af(self) -> u16 {
        pair(self.a, self.f)
    }

    pub open spec fn with_bc(self, v: u16) -> Registers {
        Registers { b: (v / 256) as u8, c: (v % 256) as u8, ..self }
    }

    pub open spec fn with_de(self, v: u16) -> Registers {
        Registers { d: (v / 256) as u8, e: (v % 256) as u8, ..self }
    }

    pub open spec fn with_hl(self, v: u16) -> Registers {
        Registers { h: (v / 256) as u8, l: (v % 256) as u8, ..self }
    }

    /// AF is set with the low four bits of F cleared.
    pub open spec fn with_af(self, v: u16) -> Registers {
        Registers { a: (v / 256) as u8, f: ((v % 256) as u8) & 0xF0, ..self }
    }

    pub open spec fn zero_flag(self) -> bool {
        self.f & 0x80 != 0
    }

    pub open spec fn sub_flag(self) -> bool {
        self.f & 0x40 != 0
    }

    pub open spec fn half_carry_flag(self) -> bool {
        self.f & 0x20 != 0
    }

    pub open spec fn carry_flag(self) -> bool {
        self.f & 0x10 != 0
    }

    pub open spec fn with_zero_flag(self, v: bool) -> Registers {
        Registers {
            f: if v {
                self.f | 0x80
            } else {
                self.f & 0x7F
            },
            ..self
        }
    }

    pub open spec fn with_sub_flag(self, v: bool) -> Registers {
        Registers {
            f: if v {
                self.f | 0x40
            } else {
                self.f & 0xBF
            },
            ..self
        }
    }

    pub open spec fn with_half_carry_flag(self, v: bool) -> Registers {
        Registers {
            f: if v {
                self.f | 0x20
            } else {
                self.f & 0xDF
            },
            ..self
        }
    }

    pub open spec fn with_carry_flag(self, v: bool) -> Registers {
        Registers {
            f: if v {
                self.f | 0x10
            } else {
                self.f & 0xEF
            },
            ..self
        }
    }

    /// Sets the four flags at once.
    pub open spec fn with_flags(self, z: bool, n: bool, h: bool, c: bool) -> Registers {
        self.with_zero_flag(z).with_sub_flag(n).with_half_carry_flag(h).with_carry_flag(c)
    }
}

impl Registers {
    pub fn new() -> (r: Registers)
        ensures
            r == registers_power_on(),
    {
        Registers { a: 0x01, b: 0x00, c: 0x13, d: 0x00, e: 0xD8, f: 0xB0, h: 0x01, l: 0x4D }
    }

    /// BC, with B the high byte.
    pub fn get_bc(&self) -> (v: u16)
        ensures
            v == self.bc(),
    {
        proof {
            lemma_pair_bits(self.b, self.c);
        }
        ((self.b as u16) << 8) | (self.c as u16)
    }

    pub fn set_bc(&mut self, value: u16)
        ensures
            *final(self) == old(self).with_bc(value),
    {
        proof {
            lemma_split_bits(value);
        }
        self.b = ((value & 0xFF00) >> 8) as u8;
        self.c = (value & 0x00FF) as u8;
    }

    pub fn get_de(&self) -> (v: u16)
        ensures
            v == self.de(),
    {
        proof {
            lemma_pair_bits(self.d, self.e);
        }
        ((self.d as u16) << 8) | (self.e as u16)
    }

    pub fn set_de(&mut self, value: u16)
        ensures
            *final(self) == old(self).with_de(value),
    {
        proof {
            lemma_split_bits(value);
        }
        self.d = ((value & 0xFF00) >> 8) as u8;
        self.e = (value & 0x00FF) as u8;
    }

    pub fn get_hl(&self) -> (v: u16)
        ensures
            v == self.hl(),
    {
        proof {
            lemma_pair_bits(self.h, self.l);
        }
        ((self.h as u16) << 8) | (self.l as u16)
    }

    pub fn set_hl(&mut self, value: u16)
        ensures
            *final(self) == old(self).with_hl(value),
    {
        proof {
            lemma_split_bits(value);
        }
        self.h = ((value & 0xFF00) >> 8) as u8;
        self.l = (value & 0x00FF) as u8;
    }

    pub fn get_af(&self) -> (v: u16)
        ensures
            v == self.af(),
    {
        proof {
            lemma_pair_bits(self.a, self.f);
        }
        ((self.a as u16) << 8) | (self.f as u16)
    }

    pub fn set_af(&mut self, value: u16)
        ensures
            *final(self) == old(self).with_af(value),
    {
        proof {
            lemma_split_bits(value);
        }
        self.a = ((value & 0xFF00) >> 8) as u8;
        // The low four bits of F are wired to 0.
        self.f = (value & 0x00F0) as u8;
    }

    pub fn get_zero_flag(&self) -> (z: bool)
        ensures
            z == self.zero_flag(),
    {
        (self.f & 0b1000_0000) != 0
    }

    pub fn set_zero_flag(&mut self, value: bool)
        ensures
            *final(self) == old(self).with_zero_flag(value),
    {
        if value {
            self.f |= 0b1000_0000;
        } else {
            self.f &= 0b0111_1111;
        }
    }

    pub fn get_sub_flag(&self) -> (n: bool)
        ensures
            n == self.sub_flag(),
    {
        (self.f & 0b0100_0000) != 0
    }

    pub fn set_sub_flag(&mut self, value: bool)
        ensures
            *final(self) == old(self).with_sub_flag(value),
    {
        if value {
            self.f |= 0b0100_0000;
        } else {
            self.f &= 0b1011_1111;
        }
    }

    pub fn get_half_carry_flag(&self) -> (h: bool)
        ensures
            h == self.half_carry_flag(),
    {
        (self.f & 0b0010_0000) != 0
    }

    pub fn set_half_carry_flag(&mut self, value: bool)
        ensures
            *final(self) == old(self).with_half_carry_flag(value),
    {
        if value {
            self.f |= 0b0010_0000;
        } else {
            self.f &= 0b1101_1111;
        }
    }

    pub fn get_carry_flag(&self) -> (c: bool)
        ensures
            c == self.carry_flag(),
    {
        (self.f & 0b0001_0000) != 0
    }

    pub fn set_carry_flag(&mut self, value: bool)
        ensures
            *final(self) == old(self).with_carry_flag(value),
    {
        if value {
            self.f |= 0b0001_0000;
        } else {
            self.f &= 0b1110_1111;
        }
    }
}

/// The registers after ALU operation `op` (ADD, ADC, SUB, SBC, AND, XOR,
/// OR, CP) of A with `operand`.
pub open spec fn alu_result(r: Registers, op: u8, operand: u8) -> Registers {
    let a = r.a;
    let carry: u8 = if r.carry_flag() {
        1
    } else {
        0
    };
    if op == 0 {
        let res = wrap8(a + operand);
        Registers { a: res, ..r }.with_flags(
            res == 0,
            false,
            (a & 0x0F) + (operand & 0x0F) > 0x0F,
            a + operand > 0xFF,
        )
    } else if op == 1 {
        let res = wrap8(a + operand + carry);
        Registers { a: res, ..r }.with_flags(
            res == 0,
            false,
            (a & 0x0F) + (operand & 0x0F) + carry > 0x0F,
            a + operand + carry > 0xFF,
        )
    } else if op == 2 {
        let res = wrap8(a - operand);
        Registers { a: res, ..r }.with_flags(res == 0, true, (a & 0x0F) < (operand & 0x0F), a < operand)
    } else if op == 3 {
        let res = wrap8(a - operand - carry);
        Registers { a: res, ..r }.with_flags(
            res == 0,
            true,
            (a & 0x0F) < (operand & 0x0F) + carry,
            a < operand + carry,
        )
    } else if op == 4 {
        let res = a & operand;
        Registers { a: res, ..r }.with_flags(res == 0, false, true, false)
    } else if op == 5 {
        let res = a ^ operand;
        Registers { a: res, ..r }.with_flags(res == 0, false, false, false)
    } else if op == 6 {
        let res = a | operand;
        Registers { a: res, ..r }.with_flags(res == 0, false, false, false)
    } else {
        // CP: the flags of SUB, A unchanged.
        let res = wrap8(a - operand);
        r.with_flags(res == 0, true, (a & 0x0F) < (operand & 0x0F), a < operand)
    }
}

/// RLCA: rotate A left; bit 7 goes to bit 0 and to C.
pub open spec fn rlca(r: Registers) -> Registers {
    let carry = (r.a & 0x80) >> 7;
    Registers { a: (r.a << 1) | carry, ..r }.with_flags(false, false, false, carry == 1)
}

/// RRCA: rotate A right; bit 0 goes to bit 7 and to C.
pub open spec fn rrca(r: Registers) -> Registers {
    let carry = r.a & 0x01;
    Registers { a: (r.a >> 1) | (carry << 7), ..r }.with_flags(false, false, false, carry == 1)
}

/// RLA: rotate A left through C.
pub open spec fn rla(r: Registers) -> Registers {
    let old_carry: u8 = if r.carry_flag() {
        1
    } else {
        0
    };
    let new_carry = (r.a & 0x80) >> 7;
    Registers { a: (r.a << 1) | old_carry, ..r }.with_flags(false, false, false, new_carry == 1)
}

/// RRA: rotate A right through C.
pub open spec fn rra(r: Registers) -> Registers {
    let old_carry: u8 = if r.carry_flag() {
        1
    } else {
        0
    };
    let new_carry = r.a & 0x01;
    Registers { a: (r.a >> 1) | (old_carry << 7), ..r }.with_flags(
        false,
        false,
        false,
        new_carry == 1,
    )
}

/// The correction that DAA adds to A, and the new carry flag.
pub open spec fn daa_adjust(r: Registers) -> (int, bool) {
    if r.sub_flag() {
        (
            (if r.carry_flag() {
                -0x60int
            } else {
                0int
            }) + (if r.half_carry_flag() {
                -0x06int
            } else {
                0int
            }),
            r.carry_flag(),
        )
    } else {
        let c = r.carry_flag() || r.a > 0x99;
        (
            (if c {
                0x60int
            } else {
                0int
            }) + (if r.half_carry_flag() || (r.a & 0x0F) > 0x09 {
                0x06int
            } else {
                0int
            }),
            c,
        )
    }
}

/// DAA: decimal adjust of A after a BCD addition or subtraction.
pub open spec fn daa(r: Registers) -> Registers {
    let (adjust, carry) = daa_adjust(r);
    let res = wrap8(r.a + adjust);
    Registers { a: res, ..r }.with_zero_flag(res == 0).with_half_carry_flag(false).with_carry_flag(
        carry,
    )
}

/// The rotate or shift `y` of the CB group applied to `v` with carry flag
/// `carry`: the result and the bit shifted out (false for SWAP).
/// 0 RLC, 1 RRC, 2 RL, 3 RR (RL and RR through the carry), 4 SLA, 5 SRA,
/// 6 SWAP, 7 SRL.
pub open spec fn cb_shift(y: u8, v: u8, carry: bool) -> (u8, bool) {
    let c: u8 = if carry {
        1
    } else {
        0
    };
    if y == 0 {
        ((v << 1u8) | (v >> 7u8), v & 0x80 != 0)
    } else if y == 1 {
        ((v >> 1u8) | (v << 7u8), v & 0x01 != 0)
    } else if y == 2 {
        ((v << 1u8) | c, v & 0x80 != 0)
    } else if y == 3 {
        ((v >> 1u8) | (c << 7u8), v & 0x01 != 0)
    } else if y == 4 {
        (v << 1u8, v & 0x80 != 0)
    } else if y == 5 {
        ((v >> 1u8) | (v & 0x80), v & 0x01 != 0)
    } else if y == 6 {
        ((v << 4u8) | (v >> 4u8), false)
    } else {
        (v >> 1u8, v & 0x01 != 0)
    }
}

/// CPL: complement A.
pub open spec fn cpl(r: Registers) -> Registers {
    Registers { a: !r.a, ..r }.with_sub_flag(true).with_half_carry_flag(true)
}

/// SCF: set the carry flag.
pub open spec fn scf(r: Registers) -> Registers {
    r.with_sub_flag(false).with_half_carry_flag(false).with_carry_flag(true)
}

/// CCF: complement the carry flag.
pub open spec fn ccf(r: Registers) -> Registers {
    let r1 = r.with_sub_flag(false).with_half_carry_flag(false);
    r1.with_carry_flag(!r1.carry_flag())
}

/// The instruction byte's x field (bits 6-7).
pub open spec fn op_x(opcode: u8) -> u8 {
    opcode / 64
}

/// The instruction byte's y field (bits 3-5).
pub open spec fn op_y(opcode: u8) -> u8 {
    (opcode / 8) % 8
}

/// The instruction byte's z field (bits 0-2).
pub open spec fn op_z(opcode: u8) -> u8 {
    opcode % 8
}

/// The opcodes of block x = 3 that this CPU treats as illegal (and stops on).
pub open spec fn block3_illegal(y: u8, z: u8) -> bool {
    ||| (z == 0 && y >= 4)
    ||| (z == 2 && y >= 4)
    ||| (z == 3 && 2 <= y <= 5)
    ||| (z == 4 && y >= 4)
    ||| (z == 5 && (y == 3 || y == 5 || y == 7))
}

pub open spec fn opcode_legal(opcode: u8) -> bool {
    op_x(opcode) == 3 ==> !block3_illegal(op_y(opcode), op_z(opcode))
}

/// The opcodes followed by a 16-bit immediate operand.
pub open spec fn reads_immediate_word(opcode: u8) -> bool {
    let (x, y, z) = (op_x(opcode), op_y(opcode), op_z(opcode));
    ||| (x == 0 && z == 0 && y == 1)
    ||| (x == 0 && z == 1 && y % 2 == 0)
    ||| (x == 3 && z == 2 && y < 4)
    ||| (x == 3 && z == 3 && y == 0)
    ||| (x == 3 && z == 4 && y < 4)
    ||| (x == 3 && z == 5 && y == 1)
}

/// The mathematical state of the CPU and the bus behind it.
#[verifier::ext_equal]
pub struct CpuView {
    pub registers: Registers,
    pub pc: u16,
    pub sp: u16,
    pub mmu: MmuView,
    pub halted: bool,
    pub ime: bool,
}

/// The CPU state after the boot ROM, with the given bus.
pub open spec fn cpu_power_on(mmu: MmuView) -> CpuView {
    CpuView {
        registers: registers_power_on(),
        pc: 0x0100,
        sp: 0xFFFE,
        mmu,
        halted: false,
        ime: false,
    }
}

impl CpuView {
    pub open spec fn with_regs(self, r: Registers) -> CpuView {
        CpuView { registers: r, ..self }
    }

    /// 8-bit operand `i`: B, C, D, E, H, L, (HL), A.
    pub open spec fn reg8(self, i: u8) -> u8 {
        if i == 0 {
            self.registers.b
        } else if i == 1 {
            self.registers.c
        } else if i == 2 {
            self.registers.d
        } else if i == 3 {
            self.registers.e
        } else if i == 4 {
            self.registers.h
        } else if i == 5 {
            self.registers.l
        } else if i == 6 {
            self.mmu.read(self.registers.hl())
        } else {
            self.registers.a
        }
    }

    pub open spec fn set_reg8(self, i: u8, v: u8) -> CpuView {
        if i == 0 {
            self.with_regs(Registers { b: v, ..self.registers })
        } else if i == 1 {
            self.with_regs(Registers { c: v, ..self.registers })
        } else if i == 2 {
            self.with_regs(Registers { d: v, ..self.registers })
        } else if i == 3 {
            self.with_regs(Registers { e: v, ..self.registers })
        } else if i == 4 {
            self.with_regs(Registers { h: v, ..self.registers })
        } else if i == 5 {
            self.with_regs(Registers { l: v, ..self.registers })
        } else if i == 6 {
            CpuView { mmu: self.mmu.write(self.registers.hl(), v), ..self }
        } else {
            self.with_regs(Registers { a: v, ..self.registers })
        }
    }

    /// 16-bit operand `p`: BC, DE, HL, SP.
    pub open spec fn reg16(self, p: u8) -> u16 {
        if p == 0 {
            self.registers.bc()
        } else if p == 1 {
            self.registers.de()
        } else if p == 2 {
            self.registers.hl()
        } else {
            self.sp
        }
    }

    pub open spec fn set_reg16(self, p: u8, v: u16) -> CpuView {
        if p == 0 {
            self.with_regs(self.registers.with_bc(v))
        } else if p == 1 {
            self.with_regs(self.registers.with_de(v))
        } else if p == 2 {
            self.with_regs(self.registers.with_hl(v))
        } else {
            CpuView { sp: v, ..self }
        }
    }

    /// Condition `cc`: NZ, Z, NC, C.
    pub open spec fn condition(self, cc: u8) -> bool {
        if cc == 0 {
            !self.registers.zero_flag()
        } else if cc == 1 {
            self.registers.zero_flag()
        } else if cc == 2 {
            !self.registers.carry_flag()
        } else {
            self.registers.carry_flag()
        }
    }

    /// Pushes `v`: the high byte at SP - 1, the low byte at SP - 2.
    pub open spec fn push(self, v: u16) -> CpuView {
        let sp1 = wrap16(self.sp - 1);
        let m1 = self.mmu.write(sp1, (v / 256) as u8);
        let sp2 = wrap16(sp1 - 1);
        CpuView { sp: sp2, mmu: m1.write(sp2, (v % 256) as u8), ..self }
    }

    /// Pops a word: the low byte at SP, the high byte at SP + 1.
    pub open spec fn pop(self) -> (CpuView, u16) {
        let lo = self.mmu.read(self.sp);
        let sp1 = wrap16(self.sp + 1);
        let hi = self.mmu.read(sp1);
        (CpuView { sp: wrap16(sp1 + 1), ..self }, pair(hi, lo))
    }

    /// Reads the byte at PC and advances PC past it.
    pub open spec fn fetch_byte(self) -> (CpuView, u8) {
        (CpuView { pc: wrap16(self.pc + 1), ..self }, self.mmu.read(self.pc))
    }

    /// Reads the word at PC and advances PC past it.
    pub open spec fn fetch_word(self) -> (CpuView, u16) {
        (CpuView { pc: wrap16(self.pc + 2), ..self }, self.mmu.read_word(self.pc))
    }

    pub open spec fn alu(self, op: u8, operand: u8) -> CpuView {
        self.with_regs(alu_result(self.registers, op, operand))
    }

    /// PC moved by the signed offset `offset`.
    pub open spec fn jump_relative(self, offset: u8) -> CpuView {
        CpuView { pc: wrap16(self.pc + signed_byte(offset)), ..self }
    }

    /// The instructions of block x = 0, with PC past the opcode.
    pub open spec fn block0(self, y: u8, z: u8) -> (CpuView, u8) {
        let p = y / 2;
        let q = y % 2;
        if z == 0 {
            if y == 0 {
                // NOP
                (self, 4)
            } else if y == 1 {
                // LD (a16), SP
                let (s1, addr) = self.fetch_word();
                (CpuView { mmu: s1.mmu.write_word(addr, s1.sp), ..s1 }, 20)
            } else if y == 2 {
                // STOP
                (CpuView { pc: wrap16(self.pc + 1), ..self }, 4)
            } else if y == 3 {
                // JR e8
                let (s1, offset) = self.fetch_byte();
                (s1.jump_relative(offset), 12)
            } else {
                // JR cc, e8
                let (s1, offset) = self.fetch_byte();
                if s1.condition((y - 4) as u8) {
                    (s1.jump_relative(offset), 12)
                } else {
                    (s1, 8)
                }
            }
        } else if z == 1 {
            if q == 0 {
                // LD r16, d16
                let (s1, val) = self.fetch_word();
                (s1.set_reg16(p, val), 12)
            } else {
                // ADD HL, r16: H from bit 11, C from bit 15.
                let hl = self.registers.hl();
                let val = self.reg16(p);
                let r = self.registers.with_hl(wrap16(hl + val)).with_sub_flag(false).with_half_carry_flag(
                    (hl & 0x0FFF) + (val & 0x0FFF) > 0x0FFF,
                ).with_carry_flag(hl + val > 0xFFFF);
                (self.with_regs(r), 8)
            }
        } else if z == 2 {
            // LD (r16), A and LD A, (r16); HL+ and HL- step HL after use.
            let hl = self.registers.hl();
            let (s1, addr) = if p == 0 {
                (self, self.registers.bc())
            } else if p == 1 {
                (self, self.registers.de())
            } else if p == 2 {
                (self.with_regs(self.registers.with_hl(wrap16(hl + 1))), hl)
            } else {
                (self.with_regs(self.registers.with_hl(wrap16(hl - 1))), hl)
            };
            if q == 0 {
                (CpuView { mmu: s1.mmu.write(addr, s1.registers.a), ..s1 }, 8)
            } else {
                (s1.with_regs(Registers { a: s1.mmu.read(addr), ..s1.registers }), 8)
            }
        } else if z == 3 {
            // INC r16 / DEC r16 (no flags)
            let val = self.reg16(p);
            if q == 0 {
                (self.set_reg16(p, wrap16(val + 1)), 8)
            } else {
                (self.set_reg16(p, wrap16(val - 1)), 8)
            }
        } else if z == 4 {
            // INC r8
            let val = self.reg8(y);
            let res = wrap8(val + 1);
            let s1 = self.set_reg8(y, res);
            (
                s1.with_regs(
                    s1.registers.with_zero_flag(res == 0).with_sub_flag(false).with_half_carry_flag(
                        (val & 0x0F) == 0x0F,
                    ),
                ),
                if y == 6 {
                    12
                } else {
                    4
                },
            )
        } else if z == 5 {
            // DEC r8
            let val = self.reg8(y);
            let res = wrap8(val - 1);
            let s1 = self.set_reg8(y, res);
            (
                s1.with_regs(
                    s1.registers.with_zero_flag(res == 0).with_sub_flag(true).with_half_carry_flag(
                        (val & 0x0F) == 0,
                    ),
                ),
                if y == 6 {
                    12
                } else {
                    4
                },
            )
        } else if z == 6 {
            // LD r8, d8
            let (s1, imm) = self.fetch_byte();
            (
                s1.set_reg8(y, imm),
                if y == 6 {
                    12
                } else {
                    8
                },
            )
        } else {
            // Rotates of A and flag operations.
            let r = self.registers;
            let r1 = if y == 0 {
                rlca(r)
            } else if y == 1 {
                rrca(r)
            } else if y == 2 {
                rla(r)
            } else if y == 3 {
                rra(r)
            } else if y == 4 {
                daa(r)
            } else if y == 5 {
                cpl(r)
            } else if y == 6 {
                scf(r)
            } else {
                ccf(r)
            };
            (self.with_regs(r1), 4)
        }
    }

    /// The instructions of block x = 3, with PC past the opcode.
    pub open spec fn block3(self, y: u8, z: u8) -> (CpuView, u8) {
        let p = y / 2;
        let q = y % 2;
        if z == 0 {
            // RET cc
            if self.condition(y) {
                let (s1, target) = self.pop();
                (CpuView { pc: target, ..s1 }, 20)
            } else {
                (self, 8)
            }
        } else if z == 1 {
            if q == 0 {
                // POP r16 (AF with the low bits of F cleared)
                let (s1, val) = self.pop();
                if p == 3 {
                    (s1.with_regs(s1.registers.with_af(val)), 12)
                } else {
                    (s1.set_reg16(p, val), 12)
                }
            } else if p == 0 {
                // RET
                let (s1, target) = self.pop();
                (CpuView { pc: target, ..s1 }, 16)
            } else if p == 1 {
                // RETI
                let (s1, target) = self.pop();
                (CpuView { pc: target, ime: true, ..s1 }, 16)
            } else if p == 2 {
                // JP HL
                (CpuView { pc: self.registers.hl(), ..self }, 4)
            } else {
                // LD SP, HL
                (CpuView { sp: self.registers.hl(), ..self }, 8)
            }
        } else if z == 2 {
            // JP cc, a16
            let (s1, addr) = self.fetch_word();
            if s1.condition(y) {
                (CpuView { pc: addr, ..s1 }, 16)
            } else {
                (s1, 12)
            }
        } else if z == 3 {
            if y == 0 {
                // JP a16
                (CpuView { pc: self.mmu.read_word(self.pc), ..self }, 16)
            } else if y == 1 {
                // CB prefix
                let (s1, cb_opcode) = self.fetch_byte();
                s1.execute_cb(cb_opcode)
            } else if y == 6 {
                // DI
                (CpuView { ime: false, ..self }, 4)
            } else {
                // EI
                (CpuView { ime: true, ..self }, 4)
            }
        } else if z == 4 {
            // CALL cc, a16
            let (s1, addr) = self.fetch_word();
            if s1.condition(y) {
                (CpuView { pc: addr, ..s1.push(s1.pc) }, 24)
            } else {
                (s1, 12)
            }
        } else if z == 5 {
            if q == 0 {
                // PUSH r16
                let val = if p == 3 {
                    self.registers.af()
                } else {
                    self.reg16(p)
                };
                (self.push(val), 16)
            } else {
                // CALL a16
                let (s1, addr) = self.fetch_word();
                (CpuView { pc: addr, ..s1.push(s1.pc) }, 24)
            }
        } else if z == 6 {
            // ALU A, d8
            let (s1, operand) = self.fetch_byte();
            (s1.alu(y, operand), 8)
        } else {
            // RST: call to y * 8
            (CpuView { pc: (y * 8) as u16, ..self.push(self.pc) }, 16)
        }
    }

    /// A CB-prefixed instruction (with PC past it).
    pub open spec fn execute_cb(self, opcode: u8) -> (CpuView, u8) {
        let (x, y, z) = (op_x(opcode), op_y(opcode), op_z(opcode));
        let value = self.reg8(z);
        if x == 0 {
            // RLC, RRC, RL, RR, SLA, SRA, SWAP, SRL r
            let (res, carry) = cb_shift(y, value, self.registers.carry_flag());
            let s1 = self.set_reg8(z, res);
            (
                s1.with_regs(s1.registers.with_flags(res == 0, false, false, carry)),
                if z == 6 {
                    16
                } else {
                    8
                },
            )
        } else if x == 1 {
            // BIT y, r
            (
                self.with_regs(
                    self.registers.with_zero_flag((value & (1u8 << y)) == 0).with_sub_flag(
                        false,
                    ).with_half_carry_flag(true),
                ),
                if z == 6 {
                    12
                } else {
                    8
                },
            )
        } else if x == 2 {
            // RES y, r
            (
                self.set_reg8(z, value & !(1u8 << y)),
                if z == 6 {
                    16
                } else {
                    8
                },
            )
        } else {
            // SET y, r
            (
                self.set_reg8(z, value | (1u8 << y)),
                if z == 6 {
                    16
                } else {
                    8
                },
            )
        }
    }

    /// Executes `opcode` (PC already past it): the new state and its T-cycles.
    pub open spec fn execute(self, opcode: u8) -> (CpuView, u8) {
        let (x, y, z) = (op_x(opcode), op_y(opcode), op_z(opcode));
        if x == 0 {
            self.block0(y, z)
        } else if x == 1 {
            if y == 6 && z == 6 {
                // HALT
                (CpuView { halted: true, ..self }, 4)
            } else {
                // LD r8, r8
                (
                    self.set_reg8(y, self.reg8(z)),
                    if y == 6 || z == 6 {
                        8
                    } else {
                        4
                    },
                )
            }
        } else if x == 2 {
            // ALU A, r8
            (
                self.alu(y, self.reg8(z)),
                if z == 6 {
                    8
                } else {
                    4
                },
            )
        } else {
            self.block3(y, z)
        }
    }

    /// The read of the byte at PC computes its ROM offset without overflow.
    pub open spec fn fetch_byte_ok(self) -> bool {
        self.mmu.read_ok(self.pc)
    }

    /// The reads of the word at PC compute their ROM offsets without
    /// overflow.
    pub open spec fn fetch_word_ok(self) -> bool {
        self.mmu.read_ok(self.pc) && self.mmu.read_ok((self.pc + 1) as u16)
    }

    /// Reading 8-bit operand `i` is free of overflow.
    pub open spec fn reg8_ok(self, i: u8) -> bool {
        i == 6 ==> self.mmu.read_ok(self.registers.hl())
    }

    /// Writing `v` to 8-bit operand `i` is free of overflow.
    pub open spec fn set_reg8_ok(self, i: u8, v: u8) -> bool {
        i == 6 ==> self.mmu.write_ok(self.registers.hl(), v)
    }

    /// The two writes of pushing `v` are free of overflow.
    pub open spec fn push_ok(self, v: u16) -> bool {
        let sp1 = wrap16(self.sp - 1);
        let sp2 = wrap16(sp1 - 1);
        self.mmu.write_ok(sp1, (v / 256) as u8) && self.mmu.write_ok(sp2, (v % 256) as u8)
    }

    /// The two reads of a pop are free of overflow.
    pub open spec fn pop_ok(self) -> bool {
        self.mmu.read_ok(self.sp) && self.mmu.read_ok(wrap16(self.sp + 1))
    }

    /// The memory accesses of block x = 0 instruction (y, z) are free of
    /// overflow.
    pub open spec fn block0_ok(self, y: u8, z: u8) -> bool {
        let p = y / 2;
        let q = y % 2;
        if z == 0 {
            if y == 1 {
                let (s1, addr) = self.fetch_word();
                &&& self.fetch_word_ok()
                &&& addr < 0xFFFF
                &&& s1.mmu.write_ok(addr, (s1.sp % 256) as u8)
                &&& s1.mmu.write_ok((addr + 1) as u16, (s1.sp / 256) as u8)
            } else if y >= 3 {
                self.fetch_byte_ok()
            } else {
                true
            }
        } else if z == 1 {
            q == 0 ==> self.fetch_word_ok()
        } else if z == 2 {
            let addr = if p == 0 {
                self.registers.bc()
            } else if p == 1 {
                self.registers.de()
            } else {
                self.registers.hl()
            };
            if q == 0 {
                self.mmu.write_ok(addr, self.registers.a)
            } else {
                self.mmu.read_ok(addr)
            }
        } else if z == 4 {
            self.reg8_ok(y) && self.set_reg8_ok(y, wrap8(self.reg8(y) + 1))
        } else if z == 5 {
            self.reg8_ok(y) && self.set_reg8_ok(y, wrap8(self.reg8(y) - 1))
        } else if z == 6 {
            let (s1, imm) = self.fetch_byte();
            self.fetch_byte_ok() && s1.set_reg8_ok(y, imm)
        } else {
            true
        }
    }

    /// The memory accesses of CB-prefixed instruction `opcode` are free of
    /// overflow.
    pub open spec fn cb_ok(self, opcode: u8) -> bool {
        let (x, y, z) = (op_x(opcode), op_y(opcode), op_z(opcode));
        let value = self.reg8(z);
        &&& self.reg8_ok(z)
        &&& x == 0 ==> self.set_reg8_ok(z, cb_shift(y, value, self.registers.carry_flag()).0)
        &&& x == 2 ==> self.set_reg8_ok(z, value & !(1u8 << y))
        &&& x == 3 ==> self.set_reg8_ok(z, value | (1u8 << y))
    }

    /// The memory accesses of block x = 3 instruction (y, z) are free of
    /// overflow.
    pub open spec fn block3_ok(self, y: u8, z: u8) -> bool {
        let p = y / 2;
        let q = y % 2;
        if z == 0 {
            self.condition(y) ==> self.pop_ok()
        } else if z == 1 {
            (q == 0 || p <= 1) ==> self.pop_ok()
        } else if z == 2 {
            self.fetch_word_ok()
        } else if z == 3 {
            if y == 0 {
                self.fetch_word_ok()
            } else if y == 1 {
                let (s1, cb_opcode) = self.fetch_byte();
                self.fetch_byte_ok() && s1.cb_ok(cb_opcode)
            } else {
                true
            }
        } else if z == 4 {
            let (s1, addr) = self.fetch_word();
            self.fetch_word_ok() && (s1.condition(y) ==> s1.push_ok(s1.pc))
        } else if z == 5 {
            if q == 0 {
                self.push_ok(
                    if p == 3 {
                        self.registers.af()
                    } else {
                        self.reg16(p)
                    },
                )
            } else {
                let (s1, addr) = self.fetch_word();
                self.fetch_word_ok() && s1.push_ok(s1.pc)
            }
        } else if z == 6 {
            self.fetch_byte_ok()
        } else {
            self.push_ok(self.pc)
        }
    }

    /// The memory accesses of `opcode` (PC past it) are free of overflow.
    pub open spec fn accesses_ok(self, opcode: u8) -> bool {
        let (x, y, z) = (op_x(opcode), op_y(opcode), op_z(opcode));
        if x == 0 {
            self.block0_ok(y, z)
        } else if x == 1 {
            (y == 6 && z == 6) || (self.reg8_ok(z) && self.set_reg8_ok(y, self.reg8(z)))
        } else if x == 2 {
            self.reg8_ok(z)
        } else {
            self.block3_ok(y, z)
        }
    }

    /// `execute(opcode)` is defined: the opcode is legal, no address
    /// computation wraps past 0xFFFF, and no memory access overflows.
    pub open spec fn execute_ok(self, opcode: u8) -> bool {
        &&& opcode_legal(opcode)
        &&& reads_immediate_word(opcode) ==> self.pc < 0xFFFF
        &&& opcode == 0x08 ==> self.mmu.read_word(self.pc) < 0xFFFF
        &&& self.accesses_ok(opcode)
    }

    /// One fetch-decode-execute step: the new state and its T-cycles.
    #[verifier::opaque]
    pub open spec fn step(self) -> (CpuView, u8) {
        let (s1, opcode) = self.fetch_byte();
        s1.execute(opcode)
    }

    pub open spec fn step_ok(self) -> bool {
        let (s1, opcode) = self.fetch_byte();
        self.fetch_byte_ok() && s1.execute_ok(opcode)
    }

    /// Steps from this state, with `acc` T-cycles of the frame already run,
    /// until the frame's 70224 T-cycles are reached or the next step is
    /// undefined: the state reached, the T-cycles run, and whether the
    /// frame was completed.
    pub open spec fn run_frame_from(self, acc: nat) -> (CpuView, nat, bool)
        decreases (if acc >= 70224 {
            0
        } else {
            70224 - acc
        }),
    {
        if acc >= 70224 {
            (self, acc, true)
        } else if !self.step_ok() {
            (self, acc, false)
        } else {
            proof {
                lemma_step_cycles(self);
            }
            self.step().0.run_frame_from(acc + self.step().1 as nat)
        }
    }
}

/// Every instruction takes at least 4 T-cycles.
pub proof fn lemma_step_cycles(s: CpuView)
    requires
        s.step_ok(),
    ensures
        4 <= s.step().1 <= 24,
{
    reveal(CpuView::step);
    let (s1, opcode) = s.fetch_byte();
    let (x, y, z) = (op_x(opcode), op_y(opcode), op_z(opcode));
    if x == 0 {
        assert(4 <= s1.block0(y, z).1 <= 24);
    } else if x == 3 {
        if z == 3 && y == 1 {
            let (s2, cb) = s1.fetch_byte();
            assert(4 <= s2.execute_cb(cb).1 <= 24);
        } else {
            assert(4 <= s1.block3(y, z).1 <= 24);
        }
    }
}

broadcast use crate::arith::group_wrapping;

proof fn lemma_nibble(v: u8)
    by (bit_vector)
    ensures
        v & 0x0F <= 0x0F,
{
}

proof fn lemma_nibble16(v: u16)
    by (bit_vector)
    ensures
        v & 0x0FFF <= 0x0FFF,
{
}

proof fn lemma_i32_to_u8_bits(x: i32)
    by (bit_vector)
    requires
        -256 < x < 256,
    ensures
        x < 0 ==> x as u8 == x + 256,
        x >= 0 ==> x as u8 == x,
{
}

/// The byte that an `i32` in (-256, 256) truncates to.
proof fn lemma_i32_to_u8(x: i32)
    requires
        -256 < x < 256,
    ensures
        x as u8 == wrap8(x as int),
{
    reveal(wrap8);
    lemma_i32_to_u8_bits(x);
}

proof fn lemma_signed_byte_bits(b: u8)
    by (bit_vector)
    ensures
        b < 128 ==> (b as i8) as i32 == b,
        b >= 128 ==> (b as i8) as i32 + 256 == b,
{
}

proof fn lemma_i32_to_u16_bits(t: i32)
    by (bit_vector)
    requires
        -128 <= t < 65536 + 128,
    ensures
        t < 0 ==> t as u16 == t + 65536,
        0 <= t < 65536 ==> t as u16 == t,
        t >= 65536 ==> t as u16 == t - 65536,
{
}

/// A relative jump computed in `i32` lands at PC + offset modulo 2^16.
proof fn lemma_jump_target(pc: u16, b: u8)
    ensures
        (pc as i32 + (b as i8) as i32) as u16 == wrap16(pc + signed_byte(b)),
{
    reveal(wrap16);
    lemma_signed_byte_bits(b);
    let s: i32 = (b as i8) as i32;
    let t: i32 = (pc as i32 + s) as i32;
    lemma_i32_to_u16_bits(t);
}

proof fn lemma_opcode_field_bits(opcode: u8)
    by (bit_vector)
    ensures
        (opcode >> 6) & 0b11 == opcode / 64,
        (opcode >> 3) & 0b111 == (opcode / 8) % 8,
        opcode & 0b111 == opcode % 8,
{
}

proof fn lemma_half_bits(y: u8)
    by (bit_vector)
    ensures
        y >> 1 == y / 2,
{
}

pub struct Cpu {
    pub registers: Registers,
    pub pc: u16,
    pub sp: u16,
    pub mmu: Mmu,
    pub halted: bool,
    pub ime: bool,
}

impl View for Cpu {
    type V = CpuView;

    open spec fn view(&self) -> CpuView {
        CpuView {
            registers: self.registers,
            pc: self.pc,
            sp: self.sp,
            mmu: self.mmu@,
            halted: self.halted,
            ime: self.ime,
        }
    }
}

pub struct OpcodeDecoder;

impl OpcodeDecoder {
    /// The x field (bits 6-7) of an opcode.
    pub fn get_x(opcode: u8) -> (x: u8)
        ensures
            x == op_x(opcode),
            x <= 3,
    {
        proof {
            lemma_opcode_field_bits(opcode);
        }
        (opcode >> 6) & 0b11
    }

    /// The y field (bits 3-5) of an opcode.
    pub fn get_y(opcode: u8) -> (y: u8)
        ensures
            y == op_y(opcode),
            y <= 7,
    {
        proof {
            lemma_opcode_field_bits(opcode);
        }
        (opcode >> 3) & 0b111
    }

    /// The z field (bits 0-2) of an opcode.
    pub fn get_z(opcode: u8) -> (z: u8)
        ensures
            z == op_z(opcode),
            z <= 7,
    {
        proof {
            lemma_opcode_field_bits(opcode);
        }
        opcode & 0b111
    }
}

/// Rotate or shift `y` of the CB group (see `cb_shift`).
fn cb_rotate_shift(y: u8, v: u8, carry: bool) -> (out: (u8, bool))
    requires
        y <= 7,
    ensures
        out == cb_shift(y, v, carry),
{
    let c: u8 = if carry {
        1
    } else {
        0
    };
    match y {
        0 => ((v << 1) | (v >> 7), v & 0x80 != 0),
        1 => ((v >> 1) | (v << 7), v & 0x01 != 0),
        2 => ((v << 1) | c, v & 0x80 != 0),
        3 => ((v >> 1) | (c << 7), v & 0x01 != 0),
        4 => (v << 1, v & 0x80 != 0),
        5 => ((v >> 1) | (v & 0x80), v & 0x01 != 0),
        6 => ((v << 4) | (v >> 4), false),
        _ => (v >> 1, v & 0x01 != 0),
    }
}

impl Cpu {
    pub fn new(mmu: Mmu) -> (cpu: Cpu)
        ensures
            cpu@ == cpu_power_on(mmu@),
    {
        Cpu { registers: Registers::new(), pc: 0x0100, sp: 0xFFFE, mmu, halted: false, ime: false }
    }

    /// Pushes a word: high byte first.
    fn stack_push(&mut self, val: u16)
        requires
            old(self)@.push_ok(val),
        ensures
            final(self)@ == old(self)@.push(val),
    {
        proof {
            lemma_split_bits(val);
        }
        let ghost m0 = self.mmu@;
        self.sp = self.sp.wrapping_sub(1);
        let ghost sp1 = self.sp;
        self.mmu.write_byte(self.sp, ((val & 0xFF00) >> 8) as u8);
        self.sp = self.sp.wrapping_sub(1);
        proof {
            // Only a write at 0xFF47 comes before one at 0xFF46, and it
            // leaves the ROM bank that the DMA reads.
            if self.sp == 0xFF46 {
                lemma_write_keeps_bank(m0, sp1, ((val & 0xFF00) >> 8) as u8);
            }
        }
        self.mmu.write_byte(self.sp, (val & 0x00FF) as u8);
    }

    /// Pops a word: low byte first.
    fn stack_pop(&mut self) -> (val: u16)
        requires
            old(self)@.pop_ok(),
        ensures
            (final(self)@, val) == old(self)@.pop(),
    {
        let low_byte = self.mmu.read_byte(self.sp);
        let low = low_byte as u16;
        self.sp = self.sp.wrapping_add(1);
        let high_byte = self.mmu.read_byte(self.sp);
        let high = high_byte as u16;
        self.sp = self.sp.wrapping_add(1);
        proof {
            lemma_pair_bits(high_byte, low_byte);
        }
        (high << 8) | low
    }

    /// Runs one instruction; returns the T-cycles it took.
    pub fn step(&mut self) -> (cycles: u8)
        requires
            old(self)@.step_ok(),
        ensures
            (final(self)@, cycles) == old(self)@.step(),
    {
        reveal(CpuView::step);
        // Fetch the opcode at PC and move past it.
        let opcode = self.mmu.read_byte(self.pc);
        self.pc = self.pc.wrapping_add(1);
        // Decode and execute.
        let cycles = self.execute(opcode);
        cycles
    }

    /// Whether `step` is defined on the current state: the opcode at PC is
    /// legal, no address computation of it wraps past 0xFFFF, and none of
    /// its memory accesses overflows.
    pub fn can_step(&self) -> (ok: bool)
        ensures
            ok == self@.step_ok(),
    {
        if !self.mmu.read_ok(self.pc) {
            return false;
        }
        let opcode = self.mmu.read_byte(self.pc);
        let pc1 = self.pc.wrapping_add(1);
        let x = OpcodeDecoder::get_x(opcode);
        let y = OpcodeDecoder::get_y(opcode);
        let z = OpcodeDecoder::get_z(opcode);
        if x == 3 && ((z == 0 && y >= 4) || (z == 2 && y >= 4) || (z == 3 && 2 <= y && y <= 5) || (
        z == 4 && y >= 4) || (z == 5 && (y == 3 || y == 5 || y == 7))) {
            return false;
        }
        let word_operand = (x == 0 && z == 0 && y == 1) || (x == 0 && z == 1 && y % 2 == 0) || (x
            == 3 && z == 2 && y < 4) || (x == 3 && z == 3 && y == 0) || (x == 3 && z == 4 && y < 4)
            || (x == 3 && z == 5 && y == 1);
        if word_operand && pc1 == 0xFFFF {
            return false;
        }
        if opcode == 0x08 {
            if !self.word_ok(pc1) {
                return false;
            }
            let addr = self.mmu.read_word(pc1);
            if addr == 0xFFFF {
                return false;
            }
        }
        match x {
            0 => self.block0_accesses_ok(pc1, y, z),
            1 => (y == 6 && z == 6) || (self.reg8_ok(z) && {
                let value = self.read_reg_8bit(z);
                self.set_reg8_ok(y, value)
            }),
            2 => self.reg8_ok(z),
            _ => self.block3_accesses_ok(pc1, y, z),
        }
    }

    /// Whether reading 8-bit operand `index` is free of overflow.
    fn reg8_ok(&self, index: u8) -> (ok: bool)
        ensures
            ok == self@.reg8_ok(index),
    {
        if index == 6 {
            self.mmu.read_ok(self.registers.get_hl())
        } else {
            true
        }
    }

    /// Whether writing `value` to 8-bit operand `index` is free of overflow.
    fn set_reg8_ok(&self, index: u8, value: u8) -> (ok: bool)
        ensures
            ok == self@.set_reg8_ok(index, value),
    {
        if index == 6 {
            self.mmu.write_ok(self.registers.get_hl(), value)
        } else {
            true
        }
    }

    /// Whether the two writes of pushing `val` are free of overflow.
    fn push_ok(&self, val: u16) -> (ok: bool)
        ensures
            ok == self@.push_ok(val),
    {
        let sp1 = self.sp.wrapping_sub(1);
        let sp2 = sp1.wrapping_sub(1);
        self.mmu.write_ok(sp1, (val / 256) as u8) && self.mmu.write_ok(sp2, (val % 256) as u8)
    }

    /// Whether the two reads of a pop are free of overflow.
    fn pop_ok(&self) -> (ok: bool)
        ensures
            ok == self@.pop_ok(),
    {
        self.mmu.read_ok(self.sp) && self.mmu.read_ok(self.sp.wrapping_add(1))
    }

    /// Whether the reads of the word at `pc1` are free of overflow.
    fn word_ok(&self, pc1: u16) -> (ok: bool)
        requires
            pc1 < 0xFFFF,
        ensures
            ok == (CpuView { pc: pc1, ..self@ }).fetch_word_ok(),
    {
        self.mmu.read_ok(pc1) && self.mmu.read_ok(pc1 + 1)
    }

    /// Whether the memory accesses of CB-prefixed instruction `opcode` are
    /// free of overflow.
    fn cb_accesses_ok(&self, opcode: u8) -> (ok: bool)
        ensures
            ok == self@.cb_ok(opcode),
    {
        let x = OpcodeDecoder::get_x(opcode);
        let y = OpcodeDecoder::get_y(opcode);
        let z = OpcodeDecoder::get_z(opcode);
        if !self.reg8_ok(z) {
            return false;
        }
        let value = self.read_reg_8bit(z);
        match x {
            0 => {
                let (result, _carry) = cb_rotate_shift(y, value, self.registers.get_carry_flag());
                self.set_reg8_ok(z, result)
            },
            1 => true,
            2 => {
                let bit_mask: u8 = !(1 << y);
                self.set_reg8_ok(z, value & bit_mask)
            },
            _ => {
                let bit_mask: u8 = 1 << y;
                self.set_reg8_ok(z, value | bit_mask)
            },
        }
    }

    /// Whether the memory accesses of block x = 0 instruction (y, z), with
    /// PC at `pc1`, are free of overflow.
    fn block0_accesses_ok(&self, pc1: u16, y: u8, z: u8) -> (ok: bool)
        requires
            y <= 7,
            z <= 7,
            (z == 0 && y == 1) || (z == 1 && y % 2 == 0) ==> pc1 < 0xFFFF,
        ensures
            ok == (CpuView { pc: pc1, ..self@ }).block0_ok(y, z),
    {
        let ghost s1 = CpuView { pc: pc1, ..self@ };
        match z {
            0 => {
                if y == 1 {
                    if !self.word_ok(pc1) {
                        return false;
                    }
                    let addr = self.mmu.read_word(pc1);
                    assert(addr == s1.fetch_word().1);
                    addr < 0xFFFF && self.mmu.write_ok(addr, (self.sp % 256) as u8)
                        && self.mmu.write_ok(addr + 1, (self.sp / 256) as u8)
                } else if y >= 3 {
                    self.mmu.read_ok(pc1)
                } else {
                    true
                }
            },
            1 => {
                if y % 2 == 0 {
                    self.word_ok(pc1)
                } else {
                    true
                }
            },
            2 => {
                let p = y / 2;
                let addr = if p == 0 {
                    self.registers.get_bc()
                } else if p == 1 {
                    self.registers.get_de()
                } else {
                    self.registers.get_hl()
                };
                if y % 2 == 0 {
                    self.mmu.write_ok(addr, self.registers.a)
                } else {
                    self.mmu.read_ok(addr)
                }
            },
            4 => {
                if !self.reg8_ok(y) {
                    return false;
                }
                let value = self.read_reg_8bit(y);
                self.set_reg8_ok(y, value.wrapping_add(1))
            },
            5 => {
                if !self.reg8_ok(y) {
                    return false;
                }
                let value = self.read_reg_8bit(y);
                self.set_reg8_ok(y, value.wrapping_sub(1))
            },
            6 => {
                if !self.mmu.read_ok(pc1) {
                    return false;
                }
                let imm = self.mmu.read_byte(pc1);
                self.set_reg8_ok(y, imm)
            },
            _ => true,
        }
    }

    /// Whether the memory accesses of block x = 3 instruction (y, z), with
    /// PC at `pc1`, are free of overflow.
    fn block3_accesses_ok(&self, pc1: u16, y: u8, z: u8) -> (ok: bool)
        requires
            y <= 7,
            z <= 7,
            !block3_illegal(y, z),
            (z == 2 && y < 4) || (z == 3 && y == 0) || (z == 4 && y < 4) || (z == 5 && y == 1)
                ==> pc1 < 0xFFFF,
        ensures
            ok == (CpuView { pc: pc1, ..self@ }).block3_ok(y, z),
    {
        match z {
            0 => !self.check_condition(y) || self.pop_ok(),
            1 => {
                if y % 2 == 0 || y / 2 <= 1 {
                    self.pop_ok()
                } else {
                    true
                }
            },
            2 => self.word_ok(pc1),
            3 => {
                if y == 0 {
                    self.word_ok(pc1)
                } else if y == 1 {
                    if !self.mmu.read_ok(pc1) {
                        return false;
                    }
                    let cb_opcode = self.mmu.read_byte(pc1);
                    self.cb_accesses_ok(cb_opcode)
                } else {
                    true
                }
            },
            4 => self.word_ok(pc1) && (!self.check_condition(y) || self.push_ok(pc1.wrapping_add(2))),
            5 => {
                if y % 2 == 0 {
                    let p = y / 2;
                    let val = match p {
                        0 => self.registers.get_bc(),
                        1 => self.registers.get_de(),
                        2 => self.registers.get_hl(),
                        _ => self.registers.get_af(),
                    };
                    self.push_ok(val)
                } else {
                    self.word_ok(pc1) && self.push_ok(pc1.wrapping_add(2))
                }
            },
            6 => self.mmu.read_ok(pc1),
            _ => self.push_ok(pc1),
        }
    }

    /// Runs instructions until a frame's 70224 T-cycles have passed, and
    /// returns the T-cycles run; or stops, returning `None`, before an
    /// instruction that `step` does not run.
    pub fn run_frame(&mut self) -> (cycles: Option<u32>)
        ensures
            ({
                let (s, n, completed) = old(self)@.run_frame_from(0);
                &&& final(self)@ == s
                &&& completed ==> cycles == Some(n as u32) && n < 70224 + 24
                &&& !completed ==> cycles is None
            }),
    {
        let mut cycles_this_frame: u32 = 0;
        while cycles_this_frame < 70224
            invariant
                cycles_this_frame < 70224 + 24,
                self@.run_frame_from(cycles_this_frame as nat) == old(self)@.run_frame_from(0),
            decreases (if cycles_this_frame >= 70224 {
                0
            } else {
                70224 - cycles_this_frame
            }),
        {
            if !self.can_step() {
                return None;
            }
            proof {
                lemma_step_cycles(self@);
            }
            let cycles = self.step();
            cycles_this_frame += cycles as u32;
        }
        Some(cycles_this_frame)
    }

    // Opcodes split into octal fields xxyyyzzz: x selects the instruction
    // family, y the destination or condition, z the source or operation.
    fn execute(&mut self, opcode: u8) -> (cycles: u8)
        requires
            old(self)@.execute_ok(opcode),
        ensures
            (final(self)@, cycles) == old(self)@.execute(opcode),
    {
        let x = OpcodeDecoder::get_x(opcode);
        let y = OpcodeDecoder::get_y(opcode);
        let z = OpcodeDecoder::get_z(opcode);
        match x {
            0 => {
                assert(opcode == y * 8 + z);
                self.opcodes_x1(y, z)
            },
            1 => {
                // HALT
                if y == 6 && z == 6 {
                    self.halted = true;
                    return 4;
                }
                // LD r8, r8

                let value = self.read_reg_8bit(z);
                self.write_reg_8bit(y, value);
                if y == 6 || z == 6 {
                    8
                } else {
                    4
                }
            },
            2 => {
                // ALU A, r8
                let operand = self.read_reg_8bit(z);
                self.execute_alu_operation(y, operand);
                if z == 6 {
                    8
                } else {
                    4
                }
            },
            _ => {
                assert(opcode == 192 + y * 8 + z);
                self.opcodes_x3(y, z)
            },
        }
    }

    /// Reads 8-bit operand `index`: B, C, D, E, H, L, (HL), A.
    fn read_reg_8bit(&self, index: u8) -> (value: u8)
        requires
            index <= 7,
            self@.reg8_ok(index),
        ensures
            value == self@.reg8(index),
    {
        match index {
            0 => self.registers.b,
            1 => self.registers.c,
            2 => self.registers.d,
            3 => self.registers.e,
            4 => self.registers.h,
            5 => self.registers.l,
            6 => {
                self.mmu.read_byte(self.registers.get_hl())
            },
            _ => self.registers.a,
        }
    }

    /// Writes 8-bit operand `index`: B, C, D, E, H, L, (HL), A.
    fn write_reg_8bit(&mut self, index: u8, value: u8)
        requires
            index <= 7,
            old(self)@.set_reg8_ok(index, value),
        ensures
            final(self)@ == old(self)@.set_reg8(index, value),
    {
        match index {
            0 => self.registers.b = value,
            1 => self.registers.c = value,
            2 => self.registers.d = value,
            3 => self.registers.e = value,
            4 => self.registers.h = value,
            5 => self.registers.l = value,
            6 => {
                self.mmu.write_byte(self.registers.get_hl(), value)
            },
            _ => self.registers.a = value,
        }
    }

    /// Reads 16-bit operand `p`: BC, DE, HL, SP.
    fn read_reg_16bit(&self, p: u8) -> (value: u16)
        requires
            p <= 3,
        ensures
            value == self@.reg16(p),
    {
        match p {
            0 => self.registers.get_bc(),
            1 => self.registers.get_de(),
            2 => self.registers.get_hl(),
            _ => self.sp,
        }
    }

    /// Writes 16-bit operand `p`: BC, DE, HL, SP.
    fn write_reg_16bit(&mut self, p: u8, val: u16)
        requires
            p <= 3,
        ensures
            final(self)@ == old(self)@.set_reg16(p, val),
    {
        match p {
            0 => self.registers.set_bc(val),
            1 => self.registers.set_de(val),
            2 => self.registers.set_hl(val),
            _ => self.sp = val,
        }
    }

    /// Condition `cc`: NZ, Z, NC, C.
    fn check_condition(&self, cc: u8) -> (taken: bool)
        requires
            cc <= 3,
        ensures
            taken == self@.condition(cc),
    {
        match cc {
            0 => !self.registers.get_zero_flag(),
            1 => self.registers.get_zero_flag(),
            2 => !self.registers.get_carry_flag(),
            _ => self.registers.get_carry_flag(),
        }
    }

    fn execute_alu_operation(&mut self, operation: u8, operand: u8)
        requires
            operation <= 7,
        ensures
            final(self)@ == old(self)@.alu(operation, operand),
    {
        let a = self.registers.a;
        proof {
            lemma_nibble(a);
            lemma_nibble(operand);
        }
        match operation {
            0 => {
                // ADD A, n: H from bit 3, C from bit 7.
                let result = a.wrapping_add(operand);
                self.registers.a = result;
                self.registers.set_zero_flag(result == 0);
                self.registers.set_sub_flag(false);
                self.registers.set_half_carry_flag((a & 0x0F) + (operand & 0x0F) > 0x0F);
                self.registers.set_carry_flag(a as u16 + operand as u16 > 0xFF);
            },
            1 => {
                // ADC A, n
                let carry: u8 = if self.registers.get_carry_flag() {
                    1
                } else {
                    0
                };
                let result = a.wrapping_add(operand).wrapping_add(carry);
                proof {
                    lemma_wrap8_assoc(a + operand, carry as int);
                }
                self.registers.a = result;
                self.registers.set_zero_flag(result == 0);
                self.registers.set_sub_flag(false);
                self.registers.set_half_carry_flag((a & 0x0F) + (operand & 0x0F) + carry > 0x0F);
                self.registers.set_carry_flag(a as u16 + operand as u16 + carry as u16 > 0xFF);
            },
            2 => {
                // SUB A, n: H on a borrow from bit 4.
                let result = a.wrapping_sub(operand);
                self.registers.a = result;
                self.registers.set_zero_flag(result == 0);
                self.registers.set_sub_flag(true);
                self.registers.set_half_carry_flag((a & 0x0F) < (operand & 0x0F));
                self.registers.set_carry_flag(a < operand);
            },
            3 => {
                // SBC A, n
                let carry: u8 = if self.registers.get_carry_flag() {
                    1
                } else {
                    0
                };
                let result = a.wrapping_sub(operand).wrapping_sub(carry);
                proof {
                    lemma_wrap8_assoc(a - operand, -carry);
                }
                self.registers.a = result;
                self.registers.set_zero_flag(result == 0);
                self.registers.set_sub_flag(true);
                self.registers.set_half_carry_flag((a & 0x0F) < (operand & 0x0F) + carry);
                self.registers.set_carry_flag((a as u16) < (operand as u16) + (carry as u16));
            },
            4 => {
                // AND A, n: H set, C cleared.
                let result = a & operand;
                self.registers.a = result;
                self.registers.set_zero_flag(result == 0);
                self.registers.set_sub_flag(false);
                self.registers.set_half_carry_flag(true);
                self.registers.set_carry_flag(false);
            },
            5 => {
                // XOR A, n
                let result = a ^ operand;
                self.registers.a = result;
                self.registers.set_zero_flag(result == 0);
                self.registers.set_sub_flag(false);
                self.registers.set_half_carry_flag(false);
                self.registers.set_carry_flag(false);
            },
            6 => {
                // OR A, n
                let result = a | operand;
                self.registers.a = result;
                self.registers.set_zero_flag(result == 0);
                self.registers.set_sub_flag(false);
                self.registers.set_half_carry_flag(false);
                self.registers.set_carry_flag(false);
            },
            _ => {
                // CP A, n: the flags of SUB; A is kept.
                let result = a.wrapping_sub(operand);
                self.registers.set_zero_flag(result == 0);
                self.registers.set_sub_flag(true);
                self.registers.set_half_carry_flag((a & 0x0F) < (operand & 0x0F));
                self.registers.set_carry_flag(a < operand);
            },
        }
    }
}

impl Cpu {
    /// Block x = 0: loads, 16-bit arithmetic, increments, relative jumps,
    /// rotates of A and flag operations.
    #[verifier::rlimit(40)]
    fn opcodes_x1(&mut self, y: u8, z: u8) -> (cycles: u8)
        requires
            y <= 7,
            z <= 7,
            old(self)@.execute_ok((y * 8 + z) as u8),
        ensures
            (final(self)@, cycles) == old(self)@.block0(y, z),
    {
        assert(op_x((y * 8 + z) as u8) == 0 && op_y((y * 8 + z) as u8) == y && op_z(
            (y * 8 + z) as u8,
        ) == z);
        match z {
            0 => {
                match y {
                    // NOP
                    0 => 4,
                    1 => {
                        // LD (a16), SP
                        let addr = self.mmu.read_word(self.pc);
                        self.pc = self.pc.wrapping_add(2);
                        proof {
                            if addr > 0x7FFF {
                                lemma_write_keeps_bank(self.mmu@, addr, (self.sp % 256) as u8);
                            }
                        }
                        self.mmu.write_word(addr, self.sp);
                        20
                    },
                    2 => {
                        // STOP
                        self.pc = self.pc.wrapping_add(1);
                        4
                    },
                    3 => {
                        // JR e8
                        let offset_byte = self.mmu.read_byte(self.pc);
                        let offset = offset_byte as i8;
                        self.pc = self.pc.wrapping_add(1);
                        proof {
                            lemma_jump_target(self.pc, offset_byte);
                        }
                        self.pc = (self.pc as i32 + offset as i32) as u16;
                        12
                    },
                    _ => {
                        // JR cc, e8
                        let offset_byte = self.mmu.read_byte(self.pc);
                        let offset = offset_byte as i8;
                        self.pc = self.pc.wrapping_add(1);
                        if self.check_condition(y - 4) {
                            proof {
                                lemma_jump_target(self.pc, offset_byte);
                            }
                            self.pc = (self.pc as i32 + offset as i32) as u16;
                            12
                        } else {
                            8
                        }
                    },
                }
            },
            1 => {
                let p = y >> 1;
                let q = y % 2;
                proof {
                    lemma_half_bits(y);
                }
                if q == 0 {
                    // LD r16, d16
                    let val = self.mmu.read_word(self.pc);
                    self.pc = self.pc.wrapping_add(2);
                    self.write_reg_16bit(p, val);
                    12
                } else {
                    // ADD HL, r16: half carry from bit 11, carry from bit 15.
                    let hl = self.registers.get_hl();
                    let val = self.read_reg_16bit(p);
                    let result = hl.wrapping_add(val);
                    self.registers.set_hl(result);
                    self.registers.set_sub_flag(false);
                    proof {
                        lemma_nibble16(hl);
                        lemma_nibble16(val);
                    }
                    self.registers.set_half_carry_flag((hl & 0x0FFF) + (val & 0x0FFF) > 0x0FFF);
                    self.registers.set_carry_flag((hl as u32) + (val as u32) > 0xFFFF);
                    8
                }
            },
            2 => {
                // LD (r16), A and LD A, (r16)
                let p = y >> 1;
                let q = y % 2;
                proof {
                    lemma_half_bits(y);
                }
                let addr = match p {
                    0 => self.registers.get_bc(),
                    1 => self.registers.get_de(),
                    2 => {
                        // HL+: use HL, then increment it.
                        let hl = self.registers.get_hl();
                        self.registers.set_hl(hl.wrapping_add(1));
                        hl
                    },
                    _ => {
                        // HL-: use HL, then decrement it.
                        let hl = self.registers.get_hl();
                        self.registers.set_hl(hl.wrapping_sub(1));
                        hl
                    },
                };
                if q == 0 {
                    self.mmu.write_byte(addr, self.registers.a);
                } else {
                    self.registers.a = self.mmu.read_byte(addr);
                }
                8
            },
            3 => {
                // INC r16 / DEC r16: no flags change.
                let p = y >> 1;
                let q = y % 2;
                proof {
                    lemma_half_bits(y);
                }
                let val = self.read_reg_16bit(p);
                if q == 0 {
                    self.write_reg_16bit(p, val.wrapping_add(1));
                } else {
                    self.write_reg_16bit(p, val.wrapping_sub(1));
                }
                8
            },
            4 => {
                // INC r8
                let val = self.read_reg_8bit(y);
                let result = val.wrapping_add(1);
                self.write_reg_8bit(y, result);
                self.registers.set_zero_flag(result == 0);
                self.registers.set_sub_flag(false);
                self.registers.set_half_carry_flag((val & 0x0F) == 0x0F);
                if y == 6 {
                    12
                } else {
                    4
                }
            },
            5 => {
                // DEC r8
                let val = self.read_reg_8bit(y);
                let result = val.wrapping_sub(1);
                self.write_reg_8bit(y, result);
                self.registers.set_zero_flag(result == 0);
                self.registers.set_sub_flag(true);
                self.registers.set_half_carry_flag((val & 0x0F) == 0);
                if y == 6 {
                    12
                } else {
                    4
                }
            },
            6 => {
                // LD r8, d8
                let immediate_val = self.mmu.read_byte(self.pc);
                self.pc = self.pc.wrapping_add(1);
                self.write_reg_8bit(y, immediate_val);
                if y == 6 {
                    12
                } else {
                    8
                }
            },
            _ => {
                self.rotate_and_flag_ops(y);
                4
            },
        }
    }

    /// Block x = 0, z = 7: RLCA, RRCA, RLA, RRA, DAA, CPL, SCF, CCF.
    fn rotate_and_flag_ops(&mut self, y: u8)
        requires
            y <= 7,
        ensures
            final(self)@ == old(self)@.block0(y, 7).0,
    {
        match y {
            0 => {
                // RLCA; the rotates of A clear Z.
                let a = self.registers.a;
                let carry = (a & 0x80) >> 7;
                self.registers.a = (a << 1) | carry;
                self.registers.set_zero_flag(false);
                self.registers.set_sub_flag(false);
                self.registers.set_half_carry_flag(false);
                self.registers.set_carry_flag(carry == 1);
            },
            1 => {
                // RRCA
                let a = self.registers.a;
                let carry = a & 0x01;
                self.registers.a = (a >> 1) | (carry << 7);
                self.registers.set_zero_flag(false);
                self.registers.set_sub_flag(false);
                self.registers.set_half_carry_flag(false);
                self.registers.set_carry_flag(carry == 1);
            },
            2 => {
                // RLA
                let a = self.registers.a;
                let old_carry: u8 = if self.registers.get_carry_flag() {
                    1
                } else {
                    0
                };
                let new_carry = (a & 0x80) >> 7;
                self.registers.a = (a << 1) | old_carry;
                self.registers.set_zero_flag(false);
                self.registers.set_sub_flag(false);
                self.registers.set_half_carry_flag(false);
                self.registers.set_carry_flag(new_carry == 1);
            },
            3 => {
                // RRA
                let a = self.registers.a;
                let old_carry: u8 = if self.registers.get_carry_flag() {
                    1
                } else {
                    0
                };
                let new_carry = a & 0x01;
                self.registers.a = (a >> 1) | (old_carry << 7);
                self.registers.set_zero_flag(false);
                self.registers.set_sub_flag(false);
                self.registers.set_half_carry_flag(false);
                self.registers.set_carry_flag(new_carry == 1);
            },
            4 => {
                // DAA: turns the binary result of a BCD addition or
                // subtraction into BCD (0x09 + 0x01 = 0x0A becomes 0x10).
                let mut a = self.registers.a;
                let mut adjust: i32 = 0;
                let mut carry = false;
                if self.registers.get_sub_flag() {
                    if self.registers.get_carry_flag() {
                        adjust -= 0x60;
                        carry = true;
                    }
                    if self.registers.get_half_carry_flag() {
                        adjust -= 0x06;
                    }
                } else {
                    if self.registers.get_carry_flag() || a > 0x99 {
                        adjust += 0x60;
                        carry = true;
                    }
                    proof {
                        lemma_nibble(a);
                    }
                    if self.registers.get_half_carry_flag() || (a & 0x0F) > 0x09 {
                        adjust += 0x06;
                    }
                }
                assert((adjust as int, carry) == daa_adjust(old(self).registers));
                proof {
                    lemma_i32_to_u8(adjust);
                    lemma_wrap8_assoc(adjust as int, a as int);
                }
                a = a.wrapping_add(adjust as u8);
                self.registers.a = a;
                self.registers.set_zero_flag(a == 0);
                // DAA always clears H.
                self.registers.set_half_carry_flag(false);
                self.registers.set_carry_flag(carry);
            },
            5 => {
                // CPL
                self.registers.a = !self.registers.a;
                self.registers.set_sub_flag(true);
                self.registers.set_half_carry_flag(true);
            },
            6 => {
                // SCF
                self.registers.set_sub_flag(false);
                self.registers.set_half_carry_flag(false);
                self.registers.set_carry_flag(true);
            },
            _ => {
                // CCF
                self.registers.set_sub_flag(false);
                self.registers.set_half_carry_flag(false);
                let c = self.registers.get_carry_flag();
                self.registers.set_carry_flag(!c);
            },
        }
    }

    /// Block x = 3: returns, pops and pushes, jumps, calls, the CB prefix,
    /// ALU with an immediate operand, restarts.
    fn opcodes_x3(&mut self, y: u8, z: u8) -> (cycles: u8)
        requires
            y <= 7,
            z <= 7,
            old(self)@.execute_ok((192 + y * 8 + z) as u8),
        ensures
            (final(self)@, cycles) == old(self)@.block3(y, z),
    {
        assert(op_x((192 + y * 8 + z) as u8) == 3 && op_y((192 + y * 8 + z) as u8) == y && op_z(
            (192 + y * 8 + z) as u8,
        ) == z);
        match z {
            0 => {
                // RET cc
                if self.check_condition(y) {
                    let target = self.stack_pop();
                    self.pc = target;
                    20
                } else {
                    8
                }
            },
            1 => {
                let p = y >> 1;
                let q = y % 2;
                proof {
                    lemma_half_bits(y);
                }
                if q == 0 {
                    // POP r16; POP AF clears the low bits of F.
                    let val = self.stack_pop();
                    if p == 3 {
                        self.registers.set_af(val);
                    } else {
                        match p {
                            0 => self.registers.set_bc(val),
                            1 => self.registers.set_de(val),
                            _ => self.registers.set_hl(val),
                        }
                    }
                    12
                } else {
                    match p {
                        0 => {
                            // RET
                            self.pc = self.stack_pop();
                            16
                        },
                        1 => {
                            // RETI: return and enable interrupts.
                            self.pc = self.stack_pop();
                            self.ime = true;
                            16
                        },
                        2 => {
                            // JP HL
                            self.pc = self.registers.get_hl();
                            4
                        },
                        _ => {
                            // LD SP, HL
                            self.sp = self.registers.get_hl();
                            8
                        },
                    }
                }
            },
            2 => {
                // JP cc, a16
                let addr = self.mmu.read_word(self.pc);
                self.pc = self.pc.wrapping_add(2);
                if self.check_condition(y) {
                    self.pc = addr;
                    16
                } else {
                    12
                }
            },
            3 => {
                match y {
                    0 => {
                        // JP a16
                        let addr = self.mmu.read_word(self.pc);
                        self.pc = addr;
                        16
                    },
                    1 => {
                        // CB prefix
                        let cb_opcode = self.mmu.read_byte(self.pc);
                        self.pc = self.pc.wrapping_add(1);
                        self.execute_cb(cb_opcode)
                    },
                    6 => {
                        // DI
                        self.ime = false;
                        4
                    },
                    _ => {
                        // EI
                        self.ime = true;
                        4
                    },
                }
            },
            4 => {
                // CALL cc, a16
                let addr = self.mmu.read_word(self.pc);
                self.pc = self.pc.wrapping_add(2);
                if self.check_condition(y) {
                    self.stack_push(self.pc);
                    self.pc = addr;
                    24
                } else {
                    12
                }
            },
            5 => {
                let p = y >> 1;
                let q = y % 2;
                proof {
                    lemma_half_bits(y);
                }
                if q == 0 {
                    // PUSH r16
                    let val = match p {
                        0 => self.registers.get_bc(),
                        1 => self.registers.get_de(),
                        2 => self.registers.get_hl(),
                        _ => self.registers.get_af(),
                    };
                    self.stack_push(val);
                    16
                } else {
                    // CALL a16
                    let addr = self.mmu.read_word(self.pc);
                    self.pc = self.pc.wrapping_add(2);
                    self.stack_push(self.pc);
                    self.pc = addr;
                    24
                }
            },
            6 => {
                // ALU A, d8
                let operand = self.mmu.read_byte(self.pc);
                self.pc = self.pc.wrapping_add(1);
                self.execute_alu_operation(y, operand);
                8
            },
            _ => {
                // RST: call to 0x00, 0x08, ..., 0x38.
                let target_addr = (y as u16) * 8;
                self.stack_push(self.pc);
                self.pc = target_addr;
                16
            },
        }
    }

    /// A CB-prefixed instruction.
    fn execute_cb(&mut self, opcode: u8) -> (cycles: u8)
        requires
            old(self)@.cb_ok(opcode),
        ensures
            (final(self)@, cycles) == old(self)@.execute_cb(opcode),
    {
        let x = OpcodeDecoder::get_x(opcode);
        let y = OpcodeDecoder::get_y(opcode);
        let z = OpcodeDecoder::get_z(opcode);
        let mut value = self.read_reg_8bit(z);
        match x {
            0 => {
                // Rotations and shifts; y selects which one.
                let (result, carry) = cb_rotate_shift(y, value, self.registers.get_carry_flag());
                self.write_reg_8bit(z, result);
                self.registers.set_zero_flag(result == 0);
                self.registers.set_sub_flag(false);
                self.registers.set_half_carry_flag(false);
                self.registers.set_carry_flag(carry);
                if z == 6 {
                    16
                } else {
                    8
                }
            },
            1 => {
                // BIT y, r
                let bit_mask: u8 = 1 << y;
                self.registers.set_zero_flag((value & bit_mask) == 0);
                self.registers.set_sub_flag(false);
                self.registers.set_half_carry_flag(true);
                if z == 6 {
                    12
                } else {
                    8
                }
            },
            2 => {
                // RES y, r
                let bit_mask: u8 = !(1 << y);
                value &= bit_mask;
                self.write_reg_8bit(z, value);
                if z == 6 {
                    16
                } else {
                    8
                }
            },
            _ => {
                // SET y, r
                let bit_mask: u8 = 1 << y;
                value |= bit_mask;
                self.write_reg_8bit(z, value);
                if z == 6 {
                    16
                } else {
                    8
                }
            },
        }
    }
}

} // verus!
