//! The memory bus: cartridge banking (MBC1, MBC3), RAM, timers, joypad and
//! the I/O registers of the PPU.
use vstd::prelude::*;
use crate::ppu::{Ppu, PpuView, ppu_power_on};
use crate::arith::{lemma_pair_bits, lemma_split_bits};

verus! {

/// The memory bank controller of a cartridge.
#[derive(Debug, Clone, Copy, PartialEq, Eq, Structural)]
pub enum MbcType {
    RomOnly,
    Mbc1,
    Mbc3,
}

/// Why a ROM image cannot be used as a cartridge.
#[derive(Debug, Clone, Copy, PartialEq, Eq, Structural)]
pub enum CartridgeError {
    /// The image is shorter than the 0x150 bytes that hold the header.
    TooSmallForHeader,
}

/// The MBC named by the cartridge type byte (header offset 0x0147).
pub open spec fn mbc_type_for(cartridge_type: u8) -> MbcType {
    if cartridge_type == 0x01 || cartridge_type == 0x02 || cartridge_type == 0x03 {
        MbcType::Mbc1
    } else if 0x0F <= cartridge_type <= 0x13 {
        MbcType::Mbc3
    } else {
        MbcType::RomOnly
    }
}

/// The number of 8 KB SRAM banks named by the RAM size byte (header offset 0x0149).
pub open spec fn sram_bank_count(ram_size: u8) -> nat {
    if ram_size == 0x02 {
        1
    } else if ram_size == 0x03 {
        4
    } else if ram_size == 0x04 {
        16
    } else {
        0
    }
}

/// The mathematical state of a cartridge.
#[verifier::ext_equal]
pub struct CartridgeView {
    pub rom: Seq<u8>,
    pub sram: Seq<Seq<u8>>,
    pub mbc_type: MbcType,
    pub rom_bank: usize,
    pub sram_bank: usize,
    pub sram_enabled: bool,
    pub rtc_registers: Seq<u8>,
    pub rtc_selected_reg: u8,
    pub rtc_latch_register: u8,
}

/// The cartridge made from a ROM image with a complete header.
pub open spec fn cartridge_from_rom(rom: Seq<u8>) -> CartridgeView {
    CartridgeView {
        rom,
        sram: Seq::new(sram_bank_count(rom[0x0149]), |i: int| Seq::new(0x2000, |j: int| 0u8)),
        mbc_type: mbc_type_for(rom[0x0147]),
        rom_bank: 1,
        sram_bank: 0,
        sram_enabled: false,
        rtc_registers: Seq::new(5, |i: int| 0u8),
        rtc_selected_reg: 0xFF,
        rtc_latch_register: 0xFF,
    }
}

pub struct Cartridge {
    pub rom: Vec<u8>,
    /// Up to 16 SRAM banks of 8 KB each.
    pub sram: Vec<[u8; 0x2000]>,
    pub mbc_type: MbcType,
    pub rom_bank: usize,
    pub sram_bank: usize,
    pub sram_enabled: bool,
    /// MBC3 RTC registers (seconds, minutes, hours, days low, days high).
    pub rtc_registers: [u8; 5],
    pub rtc_selected_reg: u8,
    pub rtc_latch_register: u8,
}

impl View for Cartridge {
    type V = CartridgeView;

    open spec fn view(&self) -> CartridgeView {
        CartridgeView {
            rom: self.rom@,
            sram: self.sram@.map_values(|bank: [u8; 0x2000]| bank@),
            mbc_type: self.mbc_type,
            rom_bank: self.rom_bank,
            sram_bank: self.sram_bank,
            sram_enabled: self.sram_enabled,
            rtc_registers: self.rtc_registers@,
            rtc_selected_reg: self.rtc_selected_reg,
            rtc_latch_register: self.rtc_latch_register,
        }
    }
}

impl Cartridge {
    /// Makes a cartridge from a ROM image, reading the MBC type and SRAM
    /// size from its header.
    pub fn load(rom: Vec<u8>) -> (res: Result<Cartridge, CartridgeError>)
        ensures
            res is Err <==> rom@.len() < 0x0150,
            res matches Err(e) ==> e == CartridgeError::TooSmallForHeader,
            res matches Ok(c) ==> c@ == cartridge_from_rom(rom@),
    {
        if rom.len() < 0x0150 {
            return Err(CartridgeError::TooSmallForHeader);
        }
        // The MBC type from header byte 0x0147.
        let cartridge_type = rom[0x0147];
        let mbc_type = match cartridge_type {
            0x01 | 0x02 | 0x03 => MbcType::Mbc1,
            0x0F | 0x10 | 0x11 | 0x12 | 0x13 => MbcType::Mbc3,
            _ => MbcType::RomOnly,
        };
        // The SRAM size from header byte 0x0149.
        let ram_size_byte = rom[0x0149];
        let sram_bank_count: usize = match ram_size_byte {
            0x02 => 1,
            0x03 => 4,
            0x04 => 16,
            _ => 0,
        };
        let mut sram: Vec<[u8; 0x2000]> = Vec::new();
        let ghost zero_bank = Seq::new(0x2000, |j: int| 0u8);
        while sram.len() < sram_bank_count
            invariant
                sram.len() <= sram_bank_count,
                zero_bank == Seq::new(0x2000, |j: int| 0u8),
                forall|i: int| 0 <= i < sram.len() ==> #[trigger] sram@[i]@ == zero_bank,
            decreases sram_bank_count - sram.len(),
        {
            let bank = [0u8; 0x2000];
            assert(bank@ =~= zero_bank);
            sram.push(bank);
        }
        let cartridge = Cartridge {
            rom,
            sram,
            mbc_type,
            rom_bank: 1,
            sram_bank: 0,
            sram_enabled: false,
            rtc_registers: [0u8; 5],
            rtc_selected_reg: 0xFF,
            rtc_latch_register: 0xFF,
        };
        assert(cartridge@.sram =~= cartridge_from_rom(cartridge.rom@).sram);
        assert(cartridge@.rtc_registers =~= cartridge_from_rom(cartridge.rom@).rtc_registers);
        Ok(cartridge)
    }
}


/// The mathematical state of the memory bus and everything behind it.
#[verifier::ext_equal]
pub struct MmuView {
    pub cartridge: CartridgeView,
    pub ppu: PpuView,
    pub vram: Seq<u8>,
    pub wram: Seq<u8>,
    pub hram: Seq<u8>,
    pub if_register: u8,
    pub ie_register: u8,
    pub serial_data: u8,
    pub serial_control: u8,
    /// Every byte sent over the serial port so far.
    pub print_buffer: Seq<u8>,
    /// The lengths of the serial output at each newline sent and not yet
    /// printed: at each, the output up to that length is to be printed.
    pub serial_flushes: Seq<usize>,
    pub div_counter: u16,
    pub tima: u8,
    pub tma: u8,
    pub tac: u8,
    pub tima_counter: i32,
    pub rom_bank: usize,
    pub ram_bank: usize,
    pub banking_mode: u8,
    pub ram_enabled: bool,
    pub joypad_select: u8,
    pub joypad_state: u8,
}

/// The bus right after power-on, with the given cartridge inserted.
pub open spec fn mmu_power_on(cartridge: CartridgeView) -> MmuView {
    MmuView {
        cartridge,
        ppu: ppu_power_on(),
        vram: Seq::new(0x2000, |i: int| 0u8),
        wram: Seq::new(0x2000, |i: int| 0u8),
        hram: Seq::new(0x7F, |i: int| 0u8),
        if_register: 0,
        ie_register: 0,
        serial_data: 0,
        serial_control: 0,
        print_buffer: Seq::empty(),
        serial_flushes: Seq::empty(),
        div_counter: 0,
        tima: 0,
        tma: 0,
        tac: 0,
        tima_counter: 0,
        rom_bank: 1,
        ram_bank: 0,
        banking_mode: 0,
        ram_enabled: false,
        joypad_select: 0x30,
        joypad_state: 0xFF,
    }
}

/// The number of T-cycles per TIMA increment selected by TAC bits 0-1.
pub open spec fn timer_threshold(tac: u8) -> int {
    let sel = tac & 0x03;
    if sel == 0 {
        1024
    } else if sel == 1 {
        16
    } else if sel == 2 {
        64
    } else {
        256
    }
}

/// TIMA after `n` increments, each overflow reloading it from TMA.
pub open spec fn tima_after(tima: u8, tma: u8, n: nat) -> u8
    decreases n,
{
    if n == 0 {
        tima
    } else {
        let t = tima_after(tima, tma, (n - 1) as nat);
        if t == 0xFF {
            tma
        } else {
            (t + 1) as u8
        }
    }
}

/// Whether TIMA overflows during `n` increments.
pub open spec fn tima_overflows(tima: u8, tma: u8, n: nat) -> bool
    decreases n,
{
    if n == 0 {
        false
    } else {
        tima_overflows(tima, tma, (n - 1) as nat) || tima_after(tima, tma, (n - 1) as nat) == 0xFF
    }
}

impl MmuView {
    pub open spec fn is_mbc3(self) -> bool {
        self.cartridge.mbc_type == MbcType::Mbc3
    }

    /// Byte `i` of the ROM image, 0xFF past its end.
    pub open spec fn rom_byte(self, i: int) -> u8 {
        if 0 <= i < self.cartridge.rom.len() {
            self.cartridge.rom[i]
        } else {
            0xFF
        }
    }

    /// The bank mapped at 0x0000-0x3FFF.
    pub open spec fn low_rom_bank(self) -> int {
        if self.banking_mode == 1 {
            (self.rom_bank & 0x60) as int
        } else {
            0
        }
    }

    /// The bank mapped at 0x4000-0x7FFF (an MBC3 bank 0 selects bank 1).
    pub open spec fn high_rom_bank(self) -> int {
        if self.is_mbc3() && self.rom_bank == 0 {
            1
        } else {
            self.rom_bank as int
        }
    }

    pub open spec fn external_ram_enabled(self) -> bool {
        self.cartridge.sram_enabled || self.ram_enabled
    }

    /// An MBC3 RTC register is mapped at 0xA000-0xBFFF.
    pub open spec fn rtc_mapped(self) -> bool {
        self.is_mbc3() && 0x08 <= self.cartridge.rtc_selected_reg <= 0x0C
    }

    /// The SRAM bank mapped at 0xA000-0xBFFF.
    pub open spec fn sram_bank_index(self) -> int {
        if self.is_mbc3() {
            self.cartridge.sram_bank as int
        } else {
            self.ram_bank as int
        }
    }

    pub open spec fn read_external_ram(self, addr: u16) -> u8 {
        if !self.external_ram_enabled() {
            0xFF
        } else if self.rtc_mapped() {
            self.cartridge.rtc_registers[self.cartridge.rtc_selected_reg - 0x08]
        } else if self.sram_bank_index() < self.cartridge.sram.len() {
            self.cartridge.sram[self.sram_bank_index()][addr - 0xA000]
        } else {
            0xFF
        }
    }

    /// The joypad register: bits 6-7 set, bits 4-5 the selection, bits 0-3
    /// the selected buttons (0 = pressed).
    pub open spec fn read_joypad(self) -> u8 {
        let b0: u8 = 0x0F;
        let b1: u8 = if self.joypad_select & 0x10 == 0 {
            b0 & (self.joypad_state & 0x0F)
        } else {
            b0
        };
        let b2: u8 = if self.joypad_select & 0x20 == 0 {
            b1 & ((self.joypad_state >> 4) & 0x0F)
        } else {
            b1
        };
        0xC0 | self.joypad_select | b2
    }

    /// The byte that a read of `addr` returns.
    #[verifier::opaque]
    pub open spec fn read(self, addr: u16) -> u8 {
        if addr <= 0x3FFF {
            self.rom_byte(self.low_rom_bank() * 0x4000 + addr)
        } else if addr <= 0x7FFF {
            self.rom_byte(self.high_rom_bank() * 0x4000 + (addr - 0x4000))
        } else if addr <= 0x9FFF {
            self.ppu.vram[addr - 0x8000]
        } else if addr <= 0xBFFF {
            self.read_external_ram(addr)
        } else if addr <= 0xDFFF {
            self.wram[addr - 0xC000]
        } else if 0xFE00 <= addr <= 0xFE9F {
            self.ppu.oam[addr - 0xFE00]
        } else if addr == 0xFF00 {
            self.read_joypad()
        } else if addr == 0xFF01 {
            self.serial_data
        } else if addr == 0xFF02 {
            self.serial_control
        } else if addr == 0xFF04 {
            (self.div_counter / 256) as u8
        } else if addr == 0xFF05 {
            self.tima
        } else if addr == 0xFF06 {
            self.tma
        } else if addr == 0xFF07 {
            self.tac | 0xF8
        } else if addr == 0xFF0F {
            self.if_register | 0xE0
        } else if addr == 0xFF40 {
            self.ppu.lcdc
        } else if addr == 0xFF41 {
            self.ppu.stat | 0x80
        } else if addr == 0xFF42 {
            self.ppu.scy
        } else if addr == 0xFF43 {
            self.ppu.scx
        } else if addr == 0xFF44 {
            self.ppu.ly
        } else if addr == 0xFF45 {
            self.ppu.lyc
        } else if addr == 0xFF46 {
            self.ppu.dma
        } else if addr == 0xFF47 {
            self.ppu.bgp
        } else if addr == 0xFF48 {
            self.ppu.obp0
        } else if addr == 0xFF49 {
            self.ppu.obp1
        } else if addr == 0xFF4A {
            self.ppu.wy
        } else if addr == 0xFF4B {
            self.ppu.wx
        } else if 0xFF80 <= addr <= 0xFFFE {
            self.hram[addr - 0xFF80]
        } else if addr == 0xFFFF {
            self.ie_register
        } else {
            0xFF
        }
    }

    /// The memories have their sizes.
    pub open spec fn wf(self) -> bool {
        &&& self.ppu.vram.len() == 0x2000
        &&& self.ppu.oam.len() == 0xA0
        &&& self.ppu.framebuffer.len() == 23040
        &&& self.vram.len() == 0x2000
        &&& self.wram.len() == 0x2000
        &&& self.hram.len() == 0x7F
        &&& self.cartridge.rtc_registers.len() == 5
        &&& forall|i: int| 0 <= i < self.cartridge.sram.len() ==> #[trigger] self.cartridge.sram[i].len() == 0x2000
    }

    /// Every ROM offset of the switchable bank fits in `usize`.
    pub open spec fn rom_bank_fits(self) -> bool {
        self.high_rom_bank() * 0x4000 + 0x3FFF <= usize::MAX
    }

    /// A read of `addr` computes its ROM offset without overflowing `usize`.
    pub open spec fn read_ok(self, addr: u16) -> bool {
        0x4000 <= addr <= 0x7FFF ==> self.high_rom_bank() * 0x4000 + (addr - 0x4000) <= usize::MAX
    }

    /// The little-endian word at `addr`.
    pub open spec fn read_word(self, addr: u16) -> u16 {
        (self.read(addr) + self.read((addr + 1) as u16) * 256) as u16
    }

    /// A write to the MBC control area 0x0000-0x7FFF.
    pub open spec fn write_mbc(self, addr: u16, val: u8) -> MmuView {
        if self.is_mbc3() {
            if addr <= 0x1FFF {
                MmuView {
                    cartridge: CartridgeView { sram_enabled: (val & 0x0F) == 0x0A, ..self.cartridge },
                    ..self
                }
            } else if addr <= 0x3FFF {
                let bank = (val & 0x7F) as usize;
                MmuView {
                    rom_bank: if bank == 0 {
                        1
                    } else {
                        bank
                    },
                    ..self
                }
            } else if addr <= 0x5FFF {
                if val <= 0x03 {
                    MmuView {
                        cartridge: CartridgeView {
                            sram_bank: val as usize,
                            rtc_selected_reg: 0xFF,
                            ..self.cartridge
                        },
                        ..self
                    }
                } else if 0x08 <= val <= 0x0C {
                    MmuView {
                        cartridge: CartridgeView { rtc_selected_reg: val, ..self.cartridge },
                        ..self
                    }
                } else {
                    self
                }
            } else {
                MmuView {
                    cartridge: CartridgeView { rtc_latch_register: val, ..self.cartridge },
                    ..self
                }
            }
        } else {
            if addr <= 0x1FFF {
                MmuView { ram_enabled: (val & 0x0F) == 0x0A, ..self }
            } else if addr <= 0x3FFF {
                let bank0 = (val & 0x1F) as usize;
                let bank = if bank0 == 0 {
                    1
                } else {
                    bank0
                };
                MmuView { rom_bank: (self.rom_bank & 0x60) | bank, ..self }
            } else if addr <= 0x5FFF {
                let bits = (val & 0x03) as usize;
                if self.banking_mode == 0 {
                    MmuView { rom_bank: (self.rom_bank & 0x1F) | (bits << 5), ..self }
                } else {
                    MmuView { ram_bank: bits, ..self }
                }
            } else {
                MmuView { banking_mode: val & 0x01, ..self }
            }
        }
    }

    /// A write to 0xA000-0xBFFF.
    pub open spec fn write_external_ram(self, addr: u16, val: u8) -> MmuView {
        if !self.external_ram_enabled() {
            self
        } else if self.rtc_mapped() {
            let r = self.cartridge.rtc_selected_reg - 0x08;
            MmuView {
                cartridge: CartridgeView {
                    rtc_registers: self.cartridge.rtc_registers.update(r, val),
                    ..self.cartridge
                },
                ..self
            }
        } else if self.sram_bank_index() < self.cartridge.sram.len() {
            let b = self.sram_bank_index();
            MmuView {
                cartridge: CartridgeView {
                    sram: self.cartridge.sram.update(
                        b,
                        self.cartridge.sram[b].update(addr - 0xA000, val),
                    ),
                    ..self.cartridge
                },
                ..self
            }
        } else {
            self
        }
    }

    /// A write of `val` to the serial control register.
    pub open spec fn serial_transfer(self, val: u8) -> MmuView {
        if val == 0x81 {
            MmuView {
                print_buffer: self.print_buffer.push(self.serial_data),
                serial_flushes: if self.serial_data == 0x0A {
                    self.serial_flushes.push((self.print_buffer.len() + 1) as usize)
                } else {
                    self.serial_flushes
                },
                ..self
            }
        } else {
            self
        }
    }

    /// A write to the DMA register: the register is set, then the 160 bytes
    /// from `val * 0x100` are copied into OAM.
    pub open spec fn oam_dma(self, val: u8) -> MmuView {
        let m1 = MmuView { ppu: PpuView { dma: val, ..self.ppu }, ..self };
        MmuView {
            ppu: PpuView {
                oam: Seq::new(0xA0, |i: int| m1.read((val * 256 + i) as u16)),
                ..m1.ppu
            },
            ..m1
        }
    }

    /// The state after a write of `val` to `addr`.
    #[verifier::opaque]
    pub open spec fn write(self, addr: u16, val: u8) -> MmuView {
        if addr <= 0x7FFF {
            self.write_mbc(addr, val)
        } else if addr <= 0x9FFF {
            MmuView { ppu: PpuView { vram: self.ppu.vram.update(addr - 0x8000, val), ..self.ppu }, ..self }
        } else if addr <= 0xBFFF {
            self.write_external_ram(addr, val)
        } else if addr <= 0xDFFF {
            MmuView { wram: self.wram.update(addr - 0xC000, val), ..self }
        } else if 0xFE00 <= addr <= 0xFE9F {
            MmuView { ppu: PpuView { oam: self.ppu.oam.update(addr - 0xFE00, val), ..self.ppu }, ..self }
        } else if addr == 0xFF00 {
            MmuView { joypad_select: val & 0x30, ..self }
        } else if addr == 0xFF01 {
            MmuView { serial_data: val, ..self }
        } else if addr == 0xFF02 {
            self.serial_transfer(val)
        } else if addr == 0xFF04 {
            MmuView { div_counter: 0, ..self }
        } else if addr == 0xFF05 {
            MmuView { tima: val, ..self }
        } else if addr == 0xFF06 {
            MmuView { tma: val, ..self }
        } else if addr == 0xFF07 {
            MmuView { tac: val & 0x07, ..self }
        } else if addr == 0xFF0F {
            MmuView { if_register: val, ..self }
        } else if addr == 0xFF40 {
            MmuView { ppu: PpuView { lcdc: val, ..self.ppu }, ..self }
        } else if addr == 0xFF41 {
            MmuView { ppu: PpuView { stat: (self.ppu.stat & 0x07) | (val & 0xF8), ..self.ppu }, ..self }
        } else if addr == 0xFF42 {
            MmuView { ppu: PpuView { scy: val, ..self.ppu }, ..self }
        } else if addr == 0xFF43 {
            MmuView { ppu: PpuView { scx: val, ..self.ppu }, ..self }
        } else if addr == 0xFF45 {
            MmuView { ppu: PpuView { lyc: val, ..self.ppu }, ..self }
        } else if addr == 0xFF46 {
            self.oam_dma(val)
        } else if addr == 0xFF47 {
            MmuView { ppu: PpuView { bgp: val, ..self.ppu }, ..self }
        } else if addr == 0xFF48 {
            MmuView { ppu: PpuView { obp0: val, ..self.ppu }, ..self }
        } else if addr == 0xFF49 {
            MmuView { ppu: PpuView { obp1: val, ..self.ppu }, ..self }
        } else if addr == 0xFF4A {
            MmuView { ppu: PpuView { wy: val, ..self.ppu }, ..self }
        } else if addr == 0xFF4B {
            MmuView { ppu: PpuView { wx: val, ..self.ppu }, ..self }
        } else if 0xFF80 <= addr <= 0xFFFE {
            MmuView { hram: self.hram.update(addr - 0xFF80, val), ..self }
        } else if addr == 0xFFFF {
            MmuView { ie_register: val, ..self }
        } else {
            self
        }
    }

    /// A write of `val` to `addr` does not overflow (the DMA's reads).
    pub open spec fn write_ok(self, addr: u16, val: u8) -> bool {
        addr == 0xFF46 ==> forall|i: int| 0 <= i < 0xA0 ==> #[trigger] self.read_ok((val * 256 + i) as u16)
    }

    /// The little-endian write of `val` at `addr`: low byte first.
    pub open spec fn write_word(self, addr: u16, val: u16) -> MmuView {
        self.write(addr, (val % 256) as u8).write((addr + 1) as u16, (val / 256) as u8)
    }

    pub open spec fn write_word_ok(self, addr: u16, val: u16) -> bool {
        &&& addr < 0xFFFF
        &&& self.write_ok(addr, (val % 256) as u8)
        &&& self.write(addr, (val % 256) as u8).write_ok((addr + 1) as u16, (val / 256) as u8)
    }

    /// TIMA counting for one tick, with the timer enabled.
    pub open spec fn run_timer(self, cycles: u8) -> MmuView {
        let thr = timer_threshold(self.tac);
        let total = self.tima_counter + cycles;
        let n: nat = if total >= thr {
            (total / thr) as nat
        } else {
            0
        };
        MmuView {
            tima_counter: (total - n * thr) as i32,
            tima: tima_after(self.tima, self.tma, n),
            if_register: if tima_overflows(self.tima, self.tma, n) {
                self.if_register | 0x04
            } else {
                self.if_register
            },
            ..self
        }
    }

    /// The state after `cycles` T-cycles of timers and PPU.
    pub open spec fn tick(self, cycles: u8) -> MmuView {
        let m1 = MmuView { div_counter: ((self.div_counter + cycles) % 65536) as u16, ..self };
        let m2 = if m1.tac & 0x04 != 0 {
            m1.run_timer(cycles)
        } else {
            m1
        };
        let (p, irq) = m2.ppu.tick(cycles);
        MmuView { ppu: p, if_register: m2.if_register | irq, ..m2 }
    }

    pub open spec fn tick_ok(self, cycles: u8) -> bool {
        &&& self.ppu.tick_ok(cycles)
        &&& self.tac & 0x04 != 0 ==> self.tima_counter + cycles <= i32::MAX
    }
}

/// The buttons held down, as the joypad reports them.
pub struct Buttons {
    pub right: bool,
    pub left: bool,
    pub up: bool,
    pub down: bool,
    pub a: bool,
    pub b: bool,
    pub select: bool,
    pub start: bool,
}

impl Buttons {
    /// The joypad state byte: bits 0-7 stand for Right, Left, Up, Down, A,
    /// B, Select, Start, and a bit is 1 while its button is released.
    pub open spec fn state_byte(self) -> u8 {
        ((if self.right {
            0u8
        } else {
            1u8
        }) + (if self.left {
            0u8
        } else {
            2u8
        }) + (if self.up {
            0u8
        } else {
            4u8
        }) + (if self.down {
            0u8
        } else {
            8u8
        }) + (if self.a {
            0u8
        } else {
            16u8
        }) + (if self.b {
            0u8
        } else {
            32u8
        }) + (if self.select {
            0u8
        } else {
            64u8
        }) + (if self.start {
            0u8
        } else {
            128u8
        })) as u8
    }

    /// All buttons released is 0xFF; each pressed button clears its bit.
    pub open spec fn cleared_bits(self) -> u8 {
        let x0: u8 = 0xFF;
        let x1: u8 = if self.right {
            x0 & !(1u8 << 0u8)
        } else {
            x0
        };
        let x2: u8 = if self.left {
            x1 & !(1u8 << 1u8)
        } else {
            x1
        };
        let x3: u8 = if self.up {
            x2 & !(1u8 << 2u8)
        } else {
            x2
        };
        let x4: u8 = if self.down {
            x3 & !(1u8 << 3u8)
        } else {
            x3
        };
        let x5: u8 = if self.a {
            x4 & !(1u8 << 4u8)
        } else {
            x4
        };
        let x6: u8 = if self.b {
            x5 & !(1u8 << 5u8)
        } else {
            x5
        };
        let x7: u8 = if self.select {
            x6 & !(1u8 << 6u8)
        } else {
            x6
        };
        if self.start {
            x7 & !(1u8 << 7u8)
        } else {
            x7
        }
    }

    /// The state byte for `update_joypad`.
    pub fn joypad_state(&self) -> (state: u8)
        ensures
            state == self.state_byte(),
    {
        let mut joypad_bits: u8 = 0xFF;
        if self.right {
            joypad_bits &= !(1u8 << 0u8);
        }
        if self.left {
            joypad_bits &= !(1u8 << 1u8);
        }
        if self.up {
            joypad_bits &= !(1u8 << 2u8);
        }
        if self.down {
            joypad_bits &= !(1u8 << 3u8);
        }
        if self.a {
            joypad_bits &= !(1u8 << 4u8);
        }
        if self.b {
            joypad_bits &= !(1u8 << 5u8);
        }
        if self.select {
            joypad_bits &= !(1u8 << 6u8);
        }
        if self.start {
            joypad_bits &= !(1u8 << 7u8);
        }
        proof {
            lemma_joypad_bits(
                self.right,
                self.left,
                self.up,
                self.down,
                self.a,
                self.b,
                self.select,
                self.start,
            );
        }
        joypad_bits
    }
}

proof fn lemma_joypad_bits(
    right: bool,
    left: bool,
    up: bool,
    down: bool,
    a: bool,
    b: bool,
    select: bool,
    start: bool,
)
    by (bit_vector)
    ensures
        (Buttons { right, left, up, down, a, b, select, start }).cleared_bits() == (Buttons {
            right,
            left,
            up,
            down,
            a,
            b,
            select,
            start,
        }).state_byte(),
{
}

pub struct Mmu {
    pub cartridge: Cartridge,
    pub ppu: Ppu,
    pub vram: [u8; 0x2000],
    pub wram: [u8; 0x2000],
    pub hram: [u8; 0x7F],
    pub if_register: u8,
    pub ie_register: u8,
    pub serial_data: u8,
    pub serial_control: u8,
    pub print_buffer: Vec<u8>,
    pub serial_flushes: Vec<usize>,
    pub div_counter: u16,
    pub tima: u8,
    pub tma: u8,
    pub tac: u8,
    pub tima_counter: i32,
    /// Active switchable ROM bank (1 after power-on).
    pub rom_bank: usize,
    /// Active external RAM bank.
    pub ram_bank: usize,
    /// 0 = ROM banking mode, 1 = RAM banking mode.
    pub banking_mode: u8,
    pub ram_enabled: bool,
    pub joypad_select: u8,
    pub joypad_state: u8,
}

impl View for Mmu {
    type V = MmuView;

    open spec fn view(&self) -> MmuView {
        MmuView {
            cartridge: self.cartridge@,
            ppu: self.ppu@,
            vram: self.vram@,
            wram: self.wram@,
            hram: self.hram@,
            if_register: self.if_register,
            ie_register: self.ie_register,
            serial_data: self.serial_data,
            serial_control: self.serial_control,
            print_buffer: self.print_buffer@,
            serial_flushes: self.serial_flushes@,
            div_counter: self.div_counter,
            tima: self.tima,
            tma: self.tma,
            tac: self.tac,
            tima_counter: self.tima_counter,
            rom_bank: self.rom_bank,
            ram_bank: self.ram_bank,
            banking_mode: self.banking_mode,
            ram_enabled: self.ram_enabled,
            joypad_select: self.joypad_select,
            joypad_state: self.joypad_state,
        }
    }
}

proof fn lemma_bank_mask(b: usize)
    by (bit_vector)
    ensures
        b & 0x60 <= 0x60,
{
}

proof fn lemma_div_register(d: u16)
    by (bit_vector)
    ensures
        d >> 8 == d / 256,
{
}

proof fn lemma_or_idempotent(a: u8, b: u8)
    by (bit_vector)
    ensures
        (a | b) | b == a | b,
{
}

impl Mmu {
    pub fn new(cartridge: Cartridge) -> (mmu: Mmu)
        ensures
            mmu@ == mmu_power_on(cartridge@),
    {
        let mmu = Mmu {
            cartridge,
            ppu: Ppu::new(),
            vram: [0u8; 0x2000],
            wram: [0u8; 0x2000],
            hram: [0u8; 0x7F],
            if_register: 0,
            ie_register: 0,
            serial_data: 0,
            serial_control: 0,
            print_buffer: Vec::new(),
            serial_flushes: Vec::new(),
            div_counter: 0,
            tima: 0,
            tma: 0,
            tac: 0,
            tima_counter: 0,
            rom_bank: 1,
            ram_bank: 0,
            banking_mode: 0,
            ram_enabled: false,
            joypad_select: 0x30,
            joypad_state: 0xFF,
        };
        assert(mmu.vram@ =~= mmu_power_on(mmu.cartridge@).vram);
        assert(mmu.wram@ =~= mmu_power_on(mmu.cartridge@).wram);
        assert(mmu.hram@ =~= mmu_power_on(mmu.cartridge@).hram);
        assert(mmu.print_buffer@ =~= Seq::<u8>::empty());
        assert(mmu.serial_flushes@ =~= Seq::<usize>::empty());
        mmu
    }

    pub fn read_byte(&self, addr: u16) -> (byte: u8)
        requires
            self@.read_ok(addr),
        ensures
            byte == self@.read(addr),
    {
        reveal(MmuView::read);
        match addr {
            0x0000..=0x3FFF => {
                let bank = if self.banking_mode == 1 {
                    self.rom_bank & 0x60
                } else {
                    0
                };
                proof {
                    lemma_bank_mask(self.rom_bank);
                }
                let mapped_addr = (bank * 0x4000) + (addr as usize);
                if mapped_addr < self.cartridge.rom.len() {
                    self.cartridge.rom[mapped_addr]
                } else {
                    0xFF
                }
            },
            0x4000..=0x7FFF => {
                let active_bank = if self.cartridge.mbc_type == MbcType::Mbc3 && self.rom_bank
                    == 0 {
                    1
                } else {
                    self.rom_bank
                };
                let mapped_addr = (active_bank * 0x4000) + (addr as usize - 0x4000);
                if mapped_addr < self.cartridge.rom.len() {
                    self.cartridge.rom[mapped_addr]
                } else {
                    0xFF
                }
            },
            // External SRAM and RTC registers.
            0xA000..=0xBFFF => {
                if !(self.cartridge.sram_enabled || self.ram_enabled) {
                    return 0xFF;
                }
                if self.cartridge.mbc_type == MbcType::Mbc3 && 0x08
                    <= self.cartridge.rtc_selected_reg && self.cartridge.rtc_selected_reg <= 0x0C {
                    return self.cartridge.rtc_registers[(self.cartridge.rtc_selected_reg
                        - 0x08) as usize];
                }
                let bank = if self.cartridge.mbc_type == MbcType::Mbc3 {
                    self.cartridge.sram_bank
                } else {
                    self.ram_bank
                };
                if bank < self.cartridge.sram.len() {
                    self.cartridge.sram[bank][(addr - 0xA000) as usize]
                } else {
                    0xFF
                }
            },
            0x8000..=0x9FFF => self.ppu.vram[addr as usize - 0x8000],
            0xFE00..=0xFE9F => self.ppu.oam[addr as usize - 0xFE00],
            0xFF40 => self.ppu.lcdc,
            // The top bit of STAT always reads 1.
            0xFF41 => self.ppu.stat | 0x80,
            0xFF42 => self.ppu.scy,
            0xFF43 => self.ppu.scx,
            0xFF44 => self.ppu.ly,
            0xFF45 => self.ppu.lyc,
            0xFF46 => self.ppu.dma,
            0xFF47 => self.ppu.bgp,
            0xFF48 => self.ppu.obp0,
            0xFF49 => self.ppu.obp1,
            0xFF4A => self.ppu.wy,
            0xFF4B => self.ppu.wx,
            0xC000..=0xDFFF => {
                let index = (addr - 0xC000) as usize;
                self.wram[index]
            },
            0xFF00 => {
                // Bits 6-7 read 1, bits 4-5 the selection, bits 0-3 the
                // selected buttons (all unpressed by default).
                let mut selected_buttons: u8 = 0x0F;
                let select_directions = (self.joypad_select & 0x10) == 0;
                let select_actions = (self.joypad_select & 0x20) == 0;
                if select_directions {
                    selected_buttons &= self.joypad_state & 0x0F;
                }
                if select_actions {
                    selected_buttons &= (self.joypad_state >> 4) & 0x0F;
                }
                0xC0 | self.joypad_select | selected_buttons
            },
            0xFF01 => self.serial_data,
            0xFF02 => self.serial_control,
            // DIV is the upper byte of the 16-bit divider.
            0xFF04 => {
                proof {
                    lemma_div_register(self.div_counter);
                }
                (self.div_counter >> 8) as u8
            },
            0xFF05 => self.tima,
            0xFF06 => self.tma,
            // The unused upper five bits of TAC read 1.
            0xFF07 => self.tac | 0xF8,
            // The top three bits of IF read 1.
            0xFF0F => self.if_register | 0xE0,
            0xFFFF => self.ie_register,
            0xFF80..=0xFFFE => {
                let index = (addr - 0xFF80) as usize;
                self.hram[index]
            },
            _ => 0xFF,
        }
    }
}

impl Mmu {
    /// A write to the MBC control area 0x0000-0x7FFF.
    fn write_mbc(&mut self, addr: u16, val: u8)
        requires
            addr <= 0x7FFF,
        ensures
            final(self)@ == old(self)@.write_mbc(addr, val),
    {
        if self.cartridge.mbc_type == MbcType::Mbc3 {
            match addr {
                0x0000..=0x1FFF => self.cartridge.sram_enabled = (val & 0x0F) == 0x0A,
                0x2000..=0x3FFF => {
                    let mut bank = (val & 0x7F) as usize;
                    if bank == 0 {
                        bank = 1;
                    }
                    self.rom_bank = bank;
                },
                0x4000..=0x5FFF => {
                    if val <= 0x03 {
                        self.cartridge.sram_bank = val as usize;
                        self.cartridge.rtc_selected_reg = 0xFF;
                    } else if 0x08 <= val && val <= 0x0C {
                        self.cartridge.rtc_selected_reg = val;
                    }
                },
                _ => self.cartridge.rtc_latch_register = val,
            }
        } else {
            match addr {
                0x0000..=0x1FFF => self.ram_enabled = (val & 0x0F) == 0x0A,
                0x2000..=0x3FFF => {
                    let mut bank = (val & 0x1F) as usize;
                    if bank == 0 {
                        bank = 1;
                    }
                    self.rom_bank = (self.rom_bank & 0x60) | bank;
                },
                0x4000..=0x5FFF => {
                    let bits = (val & 0x03) as usize;
                    if self.banking_mode == 0 {
                        self.rom_bank = (self.rom_bank & 0x1F) | (bits << 5);
                    } else {
                        self.ram_bank = bits;
                    }
                },
                _ => self.banking_mode = val & 0x01,
            }
        }
    }

    /// A write to external RAM or an MBC3 RTC register (0xA000-0xBFFF).
    fn write_external_ram(&mut self, addr: u16, val: u8)
        requires
            0xA000 <= addr <= 0xBFFF,
        ensures
            final(self)@ == old(self)@.write_external_ram(addr, val),
    {
        if !(self.cartridge.sram_enabled || self.ram_enabled) {
            return ;
        }
        if self.cartridge.mbc_type == MbcType::Mbc3 && 0x08 <= self.cartridge.rtc_selected_reg
            && self.cartridge.rtc_selected_reg <= 0x0C {
            self.cartridge.rtc_registers[(self.cartridge.rtc_selected_reg - 0x08) as usize] = val;
            return ;
        }
        let bank = if self.cartridge.mbc_type == MbcType::Mbc3 {
            self.cartridge.sram_bank
        } else {
            self.ram_bank
        };
        if bank < self.cartridge.sram.len() {
            let ghost old_sram = self.cartridge@.sram;
            let mut data = self.cartridge.sram[bank];
            data[(addr - 0xA000) as usize] = val;
            self.cartridge.sram.set(bank, data);
            assert(self.cartridge@.sram =~= old_sram.update(
                bank as int,
                old_sram[bank as int].update(addr - 0xA000, val),
            ));
        }
    }

    /// The OAM DMA transfer: sets the DMA register, then copies the 160
    /// bytes from `val * 0x100` into OAM.
    fn oam_dma(&mut self, val: u8)
        requires
            old(self)@.write_ok(0xFF46, val),
        ensures
            final(self)@ == old(self)@.oam_dma(val),
    {
        reveal(MmuView::read);
        self.ppu.dma = val;
        let source_base = (val as u16) << 8;
        assert(source_base == val * 256) by (bit_vector)
            requires
                source_base == (val as u16) << 8,
        ;
        let ghost m1 = self@;
        assert forall|j: int| 0 <= j < 0xA0 implies #[trigger] m1.read_ok((val * 256 + j) as u16) by {
            assert(old(self)@.read_ok((val * 256 + j) as u16));
        }
        let mut i: u16 = 0;
        while i < 160
            invariant
                i <= 160,
                source_base == val * 256,
                m1 == (MmuView { ppu: PpuView { dma: val, ..old(self)@.ppu }, ..old(self)@ }),
                self@ == (MmuView { ppu: PpuView { oam: self@.ppu.oam, ..m1.ppu }, ..m1 }),
                self@.ppu.oam.len() == 0xA0,
                forall|j: int| 0 <= j < 0xA0 ==> #[trigger] m1.read_ok((val * 256 + j) as u16),
                forall|j: int|
                    0 <= j < i ==> #[trigger] self@.ppu.oam[j] == m1.read((val * 256 + j) as u16),
                forall|j: int| i <= j < 0xA0 ==> #[trigger] self@.ppu.oam[j] == m1.ppu.oam[j],
            decreases 160 - i,
        {
            assert(m1.read_ok((val * 256 + i) as u16));
            let b = self.read_byte(source_base + i);
            proof {
                lemma_read_oam_frame(m1, self@, (val * 256 + i) as u16);
            }
            self.ppu.oam[i as usize] = b;
            i += 1;
        }
        assert(self@.ppu.oam =~= old(self)@.oam_dma(val).ppu.oam);
    }

    pub fn write_byte(&mut self, addr: u16, val: u8)
        requires
            old(self)@.write_ok(addr, val),
        ensures
            final(self)@ == old(self)@.write(addr, val),
    {
        reveal(MmuView::write);
        match addr {
            0x0000..=0x7FFF => self.write_mbc(addr, val),
            0xA000..=0xBFFF => self.write_external_ram(addr, val),
            0x8000..=0x9FFF => self.ppu.vram[addr as usize - 0x8000] = val,
            0xFE00..=0xFE9F => self.ppu.oam[addr as usize - 0xFE00] = val,
            0xFF40 => self.ppu.lcdc = val,
            // The lower three bits of STAT are read-only.
            0xFF41 => self.ppu.stat = (self.ppu.stat & 0x07) | (val & 0xF8),
            0xFF42 => self.ppu.scy = val,
            0xFF43 => self.ppu.scx = val,
            // LY is read-only.
            0xFF44 => {},
            0xFF45 => self.ppu.lyc = val,
            0xFF46 => self.oam_dma(val),
            0xFF47 => self.ppu.bgp = val,
            0xFF48 => self.ppu.obp0 = val,
            0xFF49 => self.ppu.obp1 = val,
            0xFF4A => self.ppu.wy = val,
            0xFF4B => self.ppu.wx = val,
            0xC000..=0xDFFF => {
                let index = (addr - 0xC000) as usize;
                self.wram[index] = val;
            },
            // Bits 4-5 select the button group to read.
            0xFF00 => self.joypad_select = val & 0x30,
            0xFF01 => self.serial_data = val,
            // A transfer request (0x81) sends the serial data byte to the
            // output; a newline asks for the output to be printed.
            0xFF02 => {
                if val == 0x81 {
                    let ch = self.serial_data;
                    self.print_buffer.push(ch);
                    if ch == 0x0A {
                        self.serial_flushes.push(self.print_buffer.len());
                    }
                }
            },
            // Any write resets DIV.
            0xFF04 => self.div_counter = 0,
            0xFF05 => self.tima = val,
            0xFF06 => self.tma = val,
            // Only the bottom three bits of TAC are writable.
            0xFF07 => self.tac = val & 0x07,
            0xFF0F => self.if_register = val,
            0xFFFF => self.ie_register = val,
            0xFF80..=0xFFFE => {
                let index = (addr - 0xFF80) as usize;
                self.hram[index] = val;
            },
            _ => {},
        }
    }

    /// Reads the little-endian word at `addr`.
    pub fn read_word(&self, addr: u16) -> (word: u16)
        requires
            addr < 0xFFFF,
            self@.read_ok(addr),
            self@.read_ok((addr + 1) as u16),
        ensures
            word == self@.read_word(addr),
    {
        let low_byte = self.read_byte(addr);
        let high_byte = self.read_byte(addr + 1);
        proof {
            lemma_pair_bits(high_byte, low_byte);
        }
        ((high_byte as u16) << 8) | (low_byte as u16)
    }

    /// Writes `val` little-endian at `addr`: the low byte first.
    pub fn write_word(&mut self, addr: u16, val: u16)
        requires
            old(self)@.write_word_ok(addr, val),
        ensures
            final(self)@ == old(self)@.write_word(addr, val),
    {
        let low_byte = (val & 0x00FF) as u8;
        let high_byte = ((val & 0xFF00) >> 8) as u8;
        proof {
            lemma_split_bits(val);
        }
        self.write_byte(addr, low_byte);
        self.write_byte(addr + 1, high_byte)
    }

    /// Advances the divider, TIMA and the PPU by `cycles` T-cycles, and
    /// raises the interrupts they request in IF.
    pub fn tick(&mut self, cycles: u8)
        requires
            old(self)@.tick_ok(cycles),
        ensures
            final(self)@ == old(self)@.tick(cycles),
    {
        // DIV counts every T-cycle.
        self.div_counter = self.div_counter.wrapping_add(cycles as u16);
        // TIMA runs when TAC bit 2 is set.
        let timer_enabled = (self.tac & 0x04) != 0;
        if timer_enabled {
            let ghost m1 = self@;
            // T-cycles per increment, from TAC bits 0-1.
            let threshold: i32 = match self.tac & 0x03 {
                0 => 1024,
                1 => 16,
                2 => 64,
                _ => 256,
            };
            assert(threshold == timer_threshold(m1.tac));
            self.tima_counter += cycles as i32;
            let ghost total = self.tima_counter as int;
            let ghost mut k: nat = 0;
            while self.tima_counter >= threshold
                invariant
                    threshold == timer_threshold(m1.tac),
                    16 <= threshold <= 1024,
                    total == m1.tima_counter + cycles,
                    k == 0 || self.tima_counter >= 0,
                    self.tima_counter == total - k * threshold,
                    self@ == (MmuView {
                        tima_counter: self.tima_counter,
                        tima: tima_after(m1.tima, m1.tma, k),
                        if_register: if tima_overflows(m1.tima, m1.tma, k) {
                            m1.if_register | 0x04
                        } else {
                            m1.if_register
                        },
                        ..m1
                    }),
                decreases self.tima_counter,
            {
                self.tima_counter -= threshold;
                // On overflow TIMA is reloaded from TMA and the timer
                // interrupt (IF bit 2) is requested.
                if self.tima == 0xFF {
                    self.tima = self.tma;
                    self.if_register |= 0x04;
                    proof {
                        lemma_or_idempotent(m1.if_register, 0x04);
                    }
                } else {
                    self.tima = self.tima + 1;
                }
                proof {
                    k = k + 1;
                }
            }
            proof {
                if total >= threshold {
                    vstd::arithmetic::div_mod::lemma_fundamental_div_mod_converse(
                        total,
                        threshold as int,
                        k as int,
                        self.tima_counter as int,
                    );
                } else if k >= 1 {
                    assert(k * threshold >= threshold) by (nonlinear_arith)
                        requires
                            k >= 1,
                            threshold >= 16,
                    ;
                }
            }
        }
        // The PPU reports VBlank (bit 0) and STAT (bit 1) requests.
        let ppu_interrupts = self.ppu.tick(cycles);
        self.if_register |= ppu_interrupts;
    }

    /// The memories of the bus have their sizes.
    pub proof fn lemma_view_wf(&self)
        ensures
            self@.wf(),
    {
        assert forall|i: int| 0 <= i < self@.cartridge.sram.len() implies #[trigger] self@.cartridge.sram[i].len() == 0x2000 by {
            assert(self@.cartridge.sram[i] == self.cartridge.sram@[i]@);
        }
    }

    /// Whether a read of `addr` computes its ROM offset without overflow.
    pub fn read_ok(&self, addr: u16) -> (ok: bool)
        ensures
            ok == self@.read_ok(addr),
    {
        if addr < 0x4000 || addr > 0x7FFF {
            return true;
        }
        let active_bank = if self.cartridge.mbc_type == MbcType::Mbc3 && self.rom_bank == 0 {
            1
        } else {
            self.rom_bank
        };
        match active_bank.checked_mul(0x4000) {
            Some(base) => base.checked_add(addr as usize - 0x4000).is_some(),
            None => {
                assert(active_bank * 0x4000 + (addr - 0x4000) > usize::MAX);
                false
            },
        }
    }

    /// Whether a write of `val` to `addr` is free of overflow (for 0xFF46,
    /// the DMA reads of the source page).
    pub fn write_ok(&self, addr: u16, val: u8) -> (ok: bool)
        ensures
            ok == self@.write_ok(addr, val),
    {
        if addr != 0xFF46 {
            return true;
        }
        let last = (val as u16) * 256 + 0x9F;
        let ok = self.read_ok(last);
        proof {
            let m = self@;
            if ok {
                assert forall|i: int| 0 <= i < 0xA0 implies #[trigger] m.read_ok(
                    (val * 256 + i) as u16,
                ) by {
                    assert((val * 256 + i) as u16 == val * 256 + i);
                }
            } else {
                assert(m.read_ok((val * 256 + 0x9F) as u16) == ok);
            }
        }
        ok
    }

    /// Records the button states (bit = 0: pressed).
    pub fn update_joypad(&mut self, state: u8)
        ensures
            final(self)@ == (MmuView { joypad_state: state, ..old(self)@ }),
    {
        self.joypad_state = state;
    }

    /// Every byte sent over the serial port so far.
    pub fn serial_output(&self) -> (out: &Vec<u8>)
        ensures
            out@ == self@.print_buffer,
    {
        &self.print_buffer
    }

    /// The lengths of the serial output at each newline sent since the
    /// last call, oldest first; clears them.
    pub fn take_serial_flushes(&mut self) -> (flushes: Vec<usize>)
        ensures
            flushes@ == old(self)@.serial_flushes,
            final(self)@ == (MmuView { serial_flushes: Seq::empty(), ..old(self)@ }),
    {
        let mut flushes = Vec::new();
        std::mem::swap(&mut flushes, &mut self.serial_flushes);
        assert(self.serial_flushes@ =~= Seq::<usize>::empty());
        flushes
    }
}

proof fn lemma_mbc_bank_bits(r: usize, v: u8)
    by (bit_vector)
    ensures
        (r & 0x60) | (((v & 0x1F) as usize)) <= 0x7F,
        (r & 0x60) | 1usize <= 0x7F,
        (r & 0x1F) | ((((v & 0x03) as usize)) << 5) <= 0x7F,
        ((v & 0x7F) as usize) <= 0x7F,
{
}

/// A write keeps the memories at their sizes.
pub proof fn lemma_write_keeps_wf(m: MmuView, addr: u16, val: u8)
    requires
        m.wf(),
    ensures
        m.write(addr, val).wf(),
{
    reveal(MmuView::write);
    let m2 = m.write(addr, val);
    if 0xA000 <= addr <= 0xBFFF {
        assert forall|i: int| 0 <= i < m2.cartridge.sram.len() implies #[trigger] m2.cartridge.sram[i].len() == 0x2000 by {
            assert(m.cartridge.sram[i].len() == 0x2000);
        }
    }
}

/// Changing OAM bytes other than the one at `addr` does not change a read of `addr`.
proof fn lemma_read_oam_frame(m1: MmuView, m2: MmuView, addr: u16)
    requires
        m2 == (MmuView { ppu: PpuView { oam: m2.ppu.oam, ..m1.ppu }, ..m1 }),
        0xFE00 <= addr <= 0xFE9F ==> m2.ppu.oam[addr - 0xFE00] == m1.ppu.oam[addr - 0xFE00],
    ensures
        m2.read(addr) == m1.read(addr),
{
    reveal(MmuView::read);
}

/// A write above the MBC control area leaves the switchable ROM bank as it
/// was, so the same reads and writes stay free of overflow.
pub proof fn lemma_write_keeps_bank(m: MmuView, addr: u16, val: u8)
    requires
        addr > 0x7FFF,
    ensures
        m.write(addr, val).rom_bank == m.rom_bank,
        m.write(addr, val).cartridge.mbc_type == m.cartridge.mbc_type,
        m.write(addr, val).high_rom_bank() == m.high_rom_bank(),
        forall|a: u16| #[trigger] m.write(addr, val).read_ok(a) == m.read_ok(a),
        forall|a: u16, v: u8| #[trigger] m.write(addr, val).write_ok(a, v) == m.write_ok(a, v),
{
    reveal(MmuView::write);
    let m1 = m.write(addr, val);
    assert forall|a: u16, v: u8| #[trigger] m1.write_ok(a, v) == m.write_ok(a, v) by {
        if a == 0xFF46 {
            if m.write_ok(a, v) {
                assert forall|i: int| 0 <= i < 0xA0 implies #[trigger] m1.read_ok(
                    (v * 256 + i) as u16,
                ) by {
                    assert(m.read_ok((v * 256 + i) as u16));
                }
            }
            if m1.write_ok(a, v) {
                assert forall|i: int| 0 <= i < 0xA0 implies #[trigger] m.read_ok(
                    (v * 256 + i) as u16,
                ) by {
                    assert(m1.read_ok((v * 256 + i) as u16));
                }
            }
        }
    }
}

/// While the switchable ROM bank fits, every read and write is free of
/// overflow, and a write keeps the bank fitting.
pub proof fn lemma_rom_bank_fits(m: MmuView, addr: u16, val: u8)
    requires
        m.rom_bank_fits(),
    ensures
        m.read_ok(addr),
        m.write_ok(addr, val),
        m.write(addr, val).rom_bank_fits(),
        m.tick(val).rom_bank_fits(),
{
    reveal(MmuView::write);
    lemma_mbc_bank_bits(m.rom_bank, val);
    assert forall|i: int| 0 <= i < 0xA0 implies #[trigger] m.read_ok((val * 256 + i) as u16) by {}
    if 0x7F * 0x4000 + 0x3FFF > usize::MAX {
        assert(usize::MAX >= 0xFFFF_FFFF);
    }
}

} // verus!
