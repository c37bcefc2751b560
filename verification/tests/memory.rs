use gioco_ragazzo::mmu::{Buttons, Cartridge, CartridgeError, MbcType, Mmu};

/// A ROM of `banks` 16 KB banks whose first byte holds the bank number.
fn rom_image(cart_type: u8, ram_size: u8, banks: usize) -> Vec<u8> {
    let mut rom = vec![0u8; banks * 0x4000];
    for b in 0..banks {
        rom[b * 0x4000] = b as u8;
    }
    rom[0x0147] = cart_type;
    rom[0x0149] = ram_size;
    rom
}

fn bus(cart_type: u8, ram_size: u8, banks: usize) -> Mmu {
    Mmu::new(Cartridge::load(rom_image(cart_type, ram_size, banks)).unwrap())
}

#[test]
fn short_rom_is_refused() {
    let res = Cartridge::load(vec![0u8; 0x014F]);
    assert!(matches!(res, Err(CartridgeError::TooSmallForHeader)));
    assert!(Cartridge::load(vec![0u8; 0x0150]).is_ok());
}

#[test]
fn header_selects_mbc_and_sram() {
    let c = Cartridge::load(rom_image(0x03, 0x03, 2)).unwrap();
    assert_eq!(c.mbc_type, MbcType::Mbc1);
    assert_eq!(c.sram.len(), 4);
    let c = Cartridge::load(rom_image(0x13, 0x04, 2)).unwrap();
    assert_eq!(c.mbc_type, MbcType::Mbc3);
    assert_eq!(c.sram.len(), 16);
    let c = Cartridge::load(rom_image(0x0F, 0x02, 2)).unwrap();
    assert_eq!(c.mbc_type, MbcType::Mbc3);
    assert_eq!(c.sram.len(), 1);
    let c = Cartridge::load(rom_image(0x00, 0x01, 2)).unwrap();
    assert_eq!(c.mbc_type, MbcType::RomOnly);
    assert_eq!(c.sram.len(), 0);
    assert_eq!(c.rom_bank, 1);
    assert_eq!(c.sram_bank, 0);
    assert!(!c.sram_enabled);
    assert_eq!(c.rtc_registers, [0u8; 5]);
    assert_eq!(c.rtc_selected_reg, 0xFF);
    assert_eq!(c.rtc_latch_register, 0xFF);
}

#[test]
fn ram_reads_back_what_was_written() {
    let mut m = bus(0x00, 0x00, 2);
    for &(addr, val) in &[(0xC000u16, 0x11u8), (0xDFFF, 0x22), (0xFF80, 0x33), (0xFFFE, 0x44), (0x8000, 0x55), (0x9FFF, 0x66), (0xFE00, 0x77), (0xFE9F, 0x88)] {
        m.write_byte(addr, val);
        assert_eq!(m.read_byte(addr), val);
    }
    // The write changed no other address.
    assert_eq!(m.read_byte(0xC001), 0x00);
    assert_eq!(m.ppu.vram[0], 0x55);
    assert_eq!(m.ppu.oam[0], 0x77);
    // Echo RAM and the unused area read 0xFF.
    assert_eq!(m.read_byte(0xE000), 0xFF);
    assert_eq!(m.read_byte(0xFEA0), 0xFF);
    assert_eq!(m.read_byte(0xFF03), 0xFF);
}

#[test]
fn words_are_little_endian() {
    let mut m = bus(0x00, 0x00, 2);
    m.write_word(0xC010, 0xABCD);
    assert_eq!(m.read_byte(0xC010), 0xCD);
    assert_eq!(m.read_byte(0xC011), 0xAB);
    assert_eq!(m.read_word(0xC010), 0xABCD);
}

#[test]
fn fixed_bits_of_io_registers_read_one() {
    let mut m = bus(0x00, 0x00, 2);
    assert_eq!(m.read_byte(0xFF41), 0x85);
    m.ppu.stat = 0x00;
    assert_eq!(m.read_byte(0xFF41), 0x80);
    assert_eq!(m.read_byte(0xFF07), 0xF8);
    assert_eq!(m.read_byte(0xFF0F), 0xE0);
    assert_eq!(m.read_byte(0xFF00) & 0xC0, 0xC0);
    assert_eq!(m.read_byte(0xFFFF), 0x00);
    m.write_byte(0xFFFF, 0x1F);
    assert_eq!(m.read_byte(0xFFFF), 0x1F);
}

#[test]
fn ly_ignores_writes_and_stat_keeps_its_mode_bits() {
    let mut m = bus(0x00, 0x00, 2);
    m.ppu.ly = 0x42;
    m.write_byte(0xFF44, 0x10);
    assert_eq!(m.read_byte(0xFF44), 0x42);
    m.ppu.stat = 0x85;
    m.write_byte(0xFF41, 0xFF);
    assert_eq!(m.ppu.stat, 0xFD);
    m.write_byte(0xFF41, 0x00);
    assert_eq!(m.ppu.stat, 0x05);
}

#[test]
fn ppu_registers_are_mapped() {
    let mut m = bus(0x00, 0x00, 2);
    let regs: [u16; 10] = [0xFF40, 0xFF42, 0xFF43, 0xFF45, 0xFF47, 0xFF48, 0xFF49, 0xFF4A, 0xFF4B, 0xFF06];
    for (i, &addr) in regs.iter().enumerate() {
        m.write_byte(addr, 0x10 + i as u8);
        assert_eq!(m.read_byte(addr), 0x10 + i as u8);
    }
    assert_eq!(m.ppu.lcdc, 0x10);
    assert_eq!(m.ppu.wx, 0x18);
    assert_eq!(m.tma, 0x19);
}

#[test]
fn div_and_tac_writes() {
    let mut m = bus(0x00, 0x00, 2);
    m.tick(255);
    m.tick(255);
    assert_eq!(m.div_counter, 510);
    assert_eq!(m.read_byte(0xFF04), 1);
    m.write_byte(0xFF04, 0x99);
    assert_eq!(m.read_byte(0xFF04), 0);
    m.write_byte(0xFF07, 0xFF);
    assert_eq!(m.tac, 0x07);
    assert_eq!(m.read_byte(0xFF07), 0xFF);
    m.write_byte(0xFF07, 0x05);
    assert_eq!(m.read_byte(0xFF07), 0xFD);
}

#[test]
fn div_wraps_around() {
    let mut m = bus(0x00, 0x00, 2);
    m.div_counter = 0xFFF0;
    m.tick(0x20);
    assert_eq!(m.div_counter, 0x0010);
}

#[test]
fn tima_counts_at_the_selected_rate() {
    let mut m = bus(0x00, 0x00, 2);
    m.write_byte(0xFF07, 0x05); // enabled, every 16 T-cycles
    m.tick(100);
    assert_eq!(m.tima, 6);
    assert_eq!(m.tima_counter, 4);
    m.write_byte(0xFF07, 0x04); // enabled, every 1024 T-cycles
    m.tima = 0;
    m.tima_counter = 1000;
    m.tick(30);
    assert_eq!(m.tima, 1);
    assert_eq!(m.tima_counter, 6);
    // Disabled: TIMA stays.
    m.write_byte(0xFF07, 0x01);
    m.tick(200);
    assert_eq!(m.tima, 1);
}

#[test]
fn tima_overflow_reloads_tma_and_requests_interrupt() {
    let mut m = bus(0x00, 0x00, 2);
    m.write_byte(0xFF07, 0x05);
    m.write_byte(0xFF06, 0x42);
    m.write_byte(0xFF05, 0xFF);
    m.tick(16);
    assert_eq!(m.tima, 0x42);
    assert_eq!(m.read_byte(0xFF0F) & 0x04, 0x04);
    // Requests already pending stay pending.
    m.write_byte(0xFF0F, 0x01);
    m.tick(4);
    assert_eq!(m.read_byte(0xFF0F) & 0x01, 0x01);
}

#[test]
fn joypad_reports_the_selected_group() {
    let mut m = bus(0x00, 0x00, 2);
    // Nothing selected: no button reads pressed.
    assert_eq!(m.read_byte(0xFF00), 0xFF);
    // Right (bit 0) and A (bit 4) pressed.
    m.update_joypad(0b1110_1110);
    assert_eq!(m.read_byte(0xFF00), 0xFF);
    m.write_byte(0xFF00, 0x20); // directions
    assert_eq!(m.read_byte(0xFF00), 0xEE);
    m.write_byte(0xFF00, 0x10); // actions
    assert_eq!(m.read_byte(0xFF00), 0xDE);
    m.write_byte(0xFF00, 0xFF); // only bits 4-5 are kept
    assert_eq!(m.joypad_select, 0x30);
    assert_eq!(m.read_byte(0xFF00), 0xFF);
}

#[test]
fn mbc1_switches_rom_banks() {
    let mut m = bus(0x01, 0x00, 64);
    assert_eq!(m.read_byte(0x0000), 0);
    assert_eq!(m.read_byte(0x4000), 1);
    m.write_byte(0x2000, 0x05);
    assert_eq!(m.read_byte(0x4000), 5);
    // Bank 0 selects bank 1.
    m.write_byte(0x2000, 0x00);
    assert_eq!(m.rom_bank, 1);
    assert_eq!(m.read_byte(0x4000), 1);
    // Upper bank bits in ROM banking mode.
    m.write_byte(0x4000, 0x01);
    assert_eq!(m.rom_bank, 0x21);
    assert_eq!(m.read_byte(0x4000), 0x21);
    // In RAM banking mode the upper bits also map at 0x0000.
    m.write_byte(0x6000, 0x01);
    assert_eq!(m.banking_mode, 1);
    assert_eq!(m.read_byte(0x0000), 0x20);
    m.write_byte(0x4000, 0x02);
    assert_eq!(m.ram_bank, 2);
    // Past the end of the image reads 0xFF.
    m.rom_bank = 0x7F;
    assert_eq!(m.read_byte(0x4000), 0xFF);
}

#[test]
fn mbc1_external_ram() {
    let mut m = bus(0x03, 0x03, 2);
    // Disabled: reads 0xFF, writes ignored.
    m.write_byte(0xA000, 0x42);
    assert_eq!(m.read_byte(0xA000), 0xFF);
    m.write_byte(0x0000, 0x0A);
    assert!(m.ram_enabled);
    assert_eq!(m.read_byte(0xA000), 0x00);
    m.write_byte(0xA000, 0x42);
    assert_eq!(m.read_byte(0xA000), 0x42);
    m.write_byte(0x6000, 0x01);
    m.write_byte(0x4000, 0x01);
    assert_eq!(m.read_byte(0xA000), 0x00);
    m.write_byte(0xBFFF, 0x99);
    m.write_byte(0x4000, 0x00);
    assert_eq!(m.read_byte(0xA000), 0x42);
    m.write_byte(0x0000, 0x00);
    assert!(!m.ram_enabled);
    assert_eq!(m.read_byte(0xA000), 0xFF);
}

#[test]
fn mbc3_banks_and_rtc_registers() {
    let mut m = bus(0x13, 0x03, 8);
    m.write_byte(0x2000, 0x03);
    assert_eq!(m.read_byte(0x4000), 3);
    m.write_byte(0x2000, 0x00);
    assert_eq!(m.rom_bank, 1);
    assert_eq!(m.read_byte(0x4000), 1);
    m.write_byte(0x2000, 0xFF);
    assert_eq!(m.rom_bank, 0x7F);
    // External RAM and RTC.
    m.write_byte(0x0000, 0x0A);
    m.write_byte(0x4000, 0x02);
    m.write_byte(0xA123, 0x5A);
    assert_eq!(m.read_byte(0xA123), 0x5A);
    m.write_byte(0x4000, 0x08);
    m.write_byte(0xA000, 0x30);
    assert_eq!(m.read_byte(0xA000), 0x30);
    m.write_byte(0x4000, 0x0C);
    assert_eq!(m.read_byte(0xA000), 0x00);
    // Values between the RAM banks and the RTC registers change nothing.
    m.write_byte(0x4000, 0x05);
    assert_eq!(m.read_byte(0xA000), 0x00);
    m.write_byte(0x4000, 0x08);
    assert_eq!(m.read_byte(0xA000), 0x30);
    m.write_byte(0x4000, 0x02);
    assert_eq!(m.read_byte(0xA123), 0x5A);
    m.write_byte(0x6000, 0x01);
    m.write_byte(0x0000, 0x00);
    assert_eq!(m.read_byte(0xA123), 0xFF);
}

#[test]
fn dma_copies_160_bytes_into_oam() {
    let mut m = bus(0x00, 0x00, 2);
    for i in 0..0xA0u16 {
        m.write_byte(0xC100 + i, (i as u8) ^ 0x5A);
    }
    m.write_byte(0xFF46, 0xC1);
    assert_eq!(m.read_byte(0xFF46), 0xC1);
    for i in 0..0xA0usize {
        assert_eq!(m.ppu.oam[i], (i as u8) ^ 0x5A);
    }
}

#[test]
fn serial_transfer_collects_output() {
    let mut m = bus(0x00, 0x00, 2);
    m.write_byte(0xFF01, b'O');
    m.write_byte(0xFF02, 0x81);
    m.write_byte(0xFF01, b'K');
    m.write_byte(0xFF02, 0x80); // no transfer requested
    m.write_byte(0xFF02, 0x81);
    assert_eq!(m.serial_output().as_slice(), b"OK");
    assert!(m.take_serial_flushes().is_empty());
    m.write_byte(0xFF01, b'\n');
    m.write_byte(0xFF02, 0x81);
    m.write_byte(0xFF02, 0x81);
    assert_eq!(m.serial_output().as_slice(), b"OK\n\n");
    assert_eq!(m.take_serial_flushes(), vec![3, 4]);
    assert!(m.take_serial_flushes().is_empty());
    // The control register keeps reading 0.
    assert_eq!(m.read_byte(0xFF02), 0x00);
    assert_eq!(m.read_byte(0xFF01), b'\n');
}

#[test]
fn only_switchable_rom_accesses_overflow_with_a_huge_bank() {
    let mut m = bus(0x01, 0x00, 2);
    assert!(m.read_ok(0x4000) && m.read_ok(0x7FFF));
    assert!(m.write_ok(0xFF46, 0x40));
    m.rom_bank = usize::MAX;
    assert!(!m.read_ok(0x4000));
    assert!(!m.read_ok(0x7FFF));
    assert!(m.read_ok(0x3FFF));
    assert!(m.read_ok(0x8000));
    // DMA from the switchable bank reads it; from WRAM it does not.
    assert!(!m.write_ok(0xFF46, 0x40));
    assert!(m.write_ok(0xFF46, 0xC0));
    assert!(m.write_ok(0xFF45, 0x40));
}

#[test]
fn buttons_clear_their_bits() {
    let none = Buttons { right: false, left: false, up: false, down: false, a: false, b: false, select: false, start: false };
    assert_eq!(none.joypad_state(), 0xFF);
    let some = Buttons { right: true, left: false, up: true, down: false, a: false, b: true, select: false, start: true };
    assert_eq!(some.joypad_state(), 0b0101_1010);
    let all = Buttons { right: true, left: true, up: true, down: true, a: true, b: true, select: true, start: true };
    assert_eq!(all.joypad_state(), 0x00);
}
