use gioco_ragazzo::ppu::Ppu;

const SHADE: [u32; 4] = [0xFF9BBC0F, 0xFF8BAC0F, 0xFF306230, 0xFF0F380F];

#[test]
fn ppu_power_on_state() {
    let p = Ppu::new();
    assert_eq!((p.lcdc, p.stat, p.bgp, p.obp0, p.obp1), (0x91, 0x85, 0xFC, 0xFF, 0xFF));
    assert_eq!((p.ly, p.lyc, p.scx, p.scy, p.wx, p.wy, p.dma), (0, 0, 0, 0, 0, 0, 0));
    assert_eq!(p.dots, 0);
    assert!(p.framebuffer.iter().all(|&c| c == 0));
    assert!(p.vram.iter().all(|&b| b == 0));
}

#[test]
fn lcd_off_holds_the_ppu_at_line_zero() {
    let mut p = Ppu::new();
    p.lcdc = 0x11;
    p.ly = 42;
    p.dots = 100;
    assert_eq!(p.tick(200), 0);
    assert_eq!((p.ly, p.dots), (0, 0));
    assert_eq!(p.stat & 0x03, 0);
}

#[test]
fn a_line_takes_456_dots() {
    let mut p = Ppu::new();
    assert_eq!(p.tick(80), 0);
    assert_eq!(p.stat & 0x03, 3);
    p.tick(255);
    assert_eq!(p.stat & 0x03, 0);
    assert_eq!(p.ly, 0);
    p.tick(121);
    assert_eq!(p.ly, 1);
    assert_eq!(p.dots, 0);
    assert_eq!(p.stat & 0x03, 2);
}

#[test]
fn vblank_is_requested_at_line_144_and_lines_wrap_at_154() {
    let mut p = Ppu::new();
    p.ly = 143;
    p.dots = 455;
    p.stat = 0x80;
    assert_eq!(p.tick(1), 0x01);
    assert_eq!(p.ly, 144);
    assert_eq!(p.stat & 0x03, 1);
    // With the VBlank STAT source enabled, STAT is requested too.
    let mut p = Ppu::new();
    p.ly = 143;
    p.dots = 455;
    p.stat = 0x90;
    assert_eq!(p.tick(1), 0x03);
    let mut p = Ppu::new();
    p.ly = 153;
    p.dots = 450;
    p.tick(10);
    assert_eq!(p.ly, 0);
    assert_eq!(p.dots, 4);
}

#[test]
fn ly_lyc_coincidence() {
    let mut p = Ppu::new();
    p.lyc = 1;
    p.stat = 0x42;
    p.dots = 450;
    let irq = p.tick(10);
    assert_eq!(p.ly, 1);
    assert_eq!(p.stat & 0x04, 0x04);
    assert_eq!(irq & 0x02, 0x02);
    p.dots = 450;
    p.tick(10);
    assert_eq!(p.ly, 2);
    assert_eq!(p.stat & 0x04, 0);
    // Only the VBlank and STAT bits are ever requested.
    for _ in 0..2000 {
        assert_eq!(p.tick(37) & 0xFC, 0);
        assert!(p.dots < 456 && p.ly < 154);
    }
}

#[test]
fn oam_and_hblank_stat_sources() {
    let mut p = Ppu::new();
    p.stat = 0x20;
    p.dots = 440;
    assert_eq!(p.tick(20), 0x02);
    let mut p = Ppu::new();
    p.stat = 0x0B;
    p.dots = 240;
    assert_eq!(p.tick(20), 0x02);
    assert_eq!(p.stat & 0x03, 0);
}

#[test]
fn background_line_uses_the_tile_map_and_palette() {
    let mut p = Ppu::new();
    // Tile 0, row 0: colour id 1 everywhere; BGP maps id 1 to shade 3.
    p.vram[0] = 0xFF;
    p.vram[1] = 0x00;
    p.framebuffer[160] = 7;
    p.render_scanline();
    for x in 0..160 {
        assert_eq!(p.framebuffer[x], SHADE[3]);
    }
    // Other lines are untouched.
    assert_eq!(p.framebuffer[160], 7);
    assert_eq!(p.framebuffer[161], 0);
    // Row 1 of tile 0 is all colour 0: shade 0.
    p.ly = 1;
    p.render_scanline();
    assert_eq!(p.framebuffer[160], SHADE[0]);
    // Lines past 143 are not drawn.
    p.ly = 150;
    p.render_scanline();
    assert_eq!(p.framebuffer[0], SHADE[3]);
}

#[test]
fn background_scroll_and_signed_tiles() {
    let mut p = Ppu::new();
    // Signed addressing (LCDC bit 4 clear): tile 0 lives at 0x9000.
    p.lcdc = 0x81;
    p.vram[0x1000] = 0x80; // leftmost pixel of tile 0, row 0: id 1
    p.vram[0x1001] = 0x80; // ... and id 3 with the high bit
    // Tile index 0x80 (-128) lives at 0x8800.
    p.vram[0x1800 + 1] = 0x80;
    p.vram[0x0800] = 0x00;
    p.vram[0x0801] = 0x80; // leftmost pixel id 2
    p.render_scanline();
    assert_eq!(p.framebuffer[0], SHADE[3]);
    assert_eq!(p.framebuffer[1], SHADE[0]);
    assert_eq!(p.framebuffer[8], SHADE[3]);
    // Scrolling by 8 brings tile 1 to column 0.
    p.scx = 8;
    p.render_scanline();
    assert_eq!(p.framebuffer[0], SHADE[3]);
    assert_eq!(p.framebuffer[1], SHADE[0]);
}

#[test]
fn window_covers_the_background_and_counts_its_lines() {
    let mut p = Ppu::new();
    // Window on (bit 5), map at 0x9C00 (bit 6).
    p.lcdc = 0x91 | 0x20 | 0x40;
    p.wy = 0;
    p.wx = 7 + 80;
    p.vram[0x1C00] = 1; // window tile 1
    p.vram[16] = 0xFF; // tile 1 row 0: id 1
    p.render_scanline();
    assert_eq!(p.framebuffer[79], SHADE[0]);
    assert_eq!(p.framebuffer[80], SHADE[3]);
    assert_eq!(p.framebuffer[87], SHADE[3]);
    assert_eq!(p.framebuffer[88], SHADE[0]);
    assert_eq!(p.window_line, 1);
    // A line above the window does not advance the counter.
    p.wy = 100;
    p.ly = 5;
    p.render_scanline();
    assert_eq!(p.window_line, 1);
}

#[test]
fn sprites_draw_over_the_background() {
    let mut p = Ppu::new();
    p.lcdc = 0x91 | 0x02;
    // Sprite 0 at the top-left corner, tile 1, palette OBP0.
    p.oam[0] = 16;
    p.oam[1] = 8;
    p.oam[2] = 1;
    p.oam[3] = 0;
    p.vram[16] = 0x80; // tile 1 row 0: only the leftmost pixel, id 1
    p.obp0 = 0b0000_1000; // id 1 -> shade 2
    p.render_scanline();
    assert_eq!(p.framebuffer[0], SHADE[2]);
    // Transparent sprite pixels show the background.
    assert_eq!(p.framebuffer[1], SHADE[0]);
    // X flip moves the pixel to the right edge of the sprite.
    p.oam[3] = 0x20;
    p.render_sprites();
    assert_eq!(p.framebuffer[7], SHADE[2]);
    // OBP1 when attribute bit 4 is set.
    p.oam[3] = 0x10;
    p.obp1 = 0b0000_0100; // id 1 -> shade 1
    p.render_sprites();
    assert_eq!(p.framebuffer[0], SHADE[1]);
    // Sprites off: nothing drawn.
    p.lcdc = 0x91;
    p.framebuffer[0] = 5;
    p.render_sprites();
    assert_eq!(p.framebuffer[0], 5);
}

/// A PPU with sprites on and sprite 0 at the top-left corner: tile 1, whose
/// first row is all colour id 1, shown with shade 1, behind the background.
fn ppu_with_priority_sprite(lcdc: u8) -> Ppu {
    let mut p = Ppu::new();
    p.lcdc = lcdc;
    p.oam[0] = 16;
    p.oam[1] = 8;
    p.oam[2] = 1;
    p.oam[3] = 0x80;
    p.vram[16] = 0xFF;
    p.obp0 = 0b0000_0100;
    p
}

#[test]
fn sprite_behind_a_non_zero_background_is_hidden() {
    let mut p = ppu_with_priority_sprite(0x91 | 0x02);
    // Background colour 0 everywhere: the sprite shows.
    p.render_scanline();
    assert_eq!(p.framebuffer[0], SHADE[1]);
    // Background colour 1 in the leftmost pixel: hidden there only.
    p.vram[0] = 0x80;
    p.render_scanline();
    assert_eq!(p.framebuffer[0], SHADE[3]);
    assert_eq!(p.framebuffer[1], SHADE[1]);
}

#[test]
fn sprite_priority_uses_signed_tile_data() {
    // LCDC bit 4 clear: tile 0 of the map is read from 0x9000.
    let mut p = ppu_with_priority_sprite(0x83);
    p.vram[0x1000] = 0x80;
    p.render_scanline();
    assert_eq!(p.framebuffer[0], SHADE[3]);
    assert_eq!(p.framebuffer[1], SHADE[1]);
}

#[test]
fn sprite_priority_uses_the_window() {
    // Window on from column 0 with map 0x9800; background map 0x9C00.
    let mut p = ppu_with_priority_sprite(0x80 | 0x10 | 0x08 | 0x20 | 0x02);
    p.wx = 7;
    p.wy = 0;
    p.vram[0x1800] = 2;
    p.vram[32] = 0x80;
    p.render_scanline();
    assert_eq!(p.framebuffer[0], SHADE[3]);
    assert_eq!(p.framebuffer[1], SHADE[1]);
}

#[test]
fn render_sprites_alone_reads_the_background_from_vram() {
    let mut p = ppu_with_priority_sprite(0x91 | 0x02);
    p.vram[0] = 0x80;
    p.render_scanline();
    assert_eq!(p.framebuffer[0], SHADE[3]);
    // The background under the sprite turns to colour 0: drawn on its own,
    // the sprite now shows.
    p.vram[0] = 0x00;
    p.render_sprites();
    assert_eq!(p.framebuffer[0], SHADE[1]);
    // And back to colour 1: hidden again.
    p.vram[0] = 0x80;
    p.framebuffer[0] = 9;
    p.render_sprites();
    assert_eq!(p.framebuffer[0], 9);
}

#[test]
fn a_line_is_its_background_then_its_sprites() {
    let setup = |lcdc: u8| {
        let mut p = ppu_with_priority_sprite(lcdc);
        p.vram[0] = 0xA5;
        p.vram[1] = 0x3C;
        p.oam[4] = 16;
        p.oam[5] = 12;
        p.oam[6] = 1;
        p
    };
    let mut whole = setup(0x91 | 0x02);
    whole.render_scanline();
    // Background alone (sprites off), then the sprites on their own.
    let mut parts = setup(0x91);
    parts.render_scanline();
    parts.lcdc = 0x91 | 0x02;
    parts.render_sprites();
    assert!(whole.framebuffer.iter().zip(parts.framebuffer.iter()).all(|(a, b)| a == b));
}

#[test]
fn render_sprites_alone_honours_signed_tile_data() {
    let mut p = ppu_with_priority_sprite(0x83);
    p.vram[0x1000] = 0x80;
    p.framebuffer[0] = 9;
    p.render_sprites();
    assert_eq!(p.framebuffer[0], 9);
    assert_eq!(p.framebuffer[1], SHADE[1]);
}

#[test]
fn at_most_ten_sprites_per_line() {
    let mut p = Ppu::new();
    p.lcdc = 0x91 | 0x02;
    p.vram[16] = 0x80;
    for i in 0..12 {
        p.oam[4 * i] = 16;
        p.oam[4 * i + 1] = 8 + 8 * i as u8;
        p.oam[4 * i + 2] = 1;
    }
    p.render_sprites();
    for i in 0..10 {
        assert_eq!(p.framebuffer[8 * i], SHADE[3]);
    }
    assert_eq!(p.framebuffer[80], 0);
    assert_eq!(p.framebuffer[88], 0);
}

#[test]
fn sprites_after_the_tenth_change_nothing() {
    let mut p = Ppu::new();
    p.lcdc = 0x91 | 0x02;
    p.vram[16] = 0x80;
    for i in 0..12 {
        p.oam[4 * i] = 16;
        p.oam[4 * i + 1] = 8 + 8 * i as u8;
        p.oam[4 * i + 2] = 1;
    }
    let mut q = Ppu::new();
    q.lcdc = p.lcdc;
    q.vram = p.vram;
    q.oam = p.oam;
    // The eleventh and twelfth sprites moved off the line.
    q.oam[40] = 0;
    q.oam[44] = 0;
    p.render_sprites();
    q.render_sprites();
    assert!(p.framebuffer.iter().zip(q.framebuffer.iter()).all(|(a, b)| a == b));
}

#[test]
fn a_tick_moves_ly_by_at_most_one_and_keeps_stat_high_bits() {
    let mut p = Ppu::new();
    p.stat = 0xF8 | 0x02;
    p.ly = 153;
    p.dots = 455;
    p.tick(4);
    assert_eq!(p.ly, 0);
    assert_eq!(p.stat & 0xF8, 0xF8);
    p.tick(200);
    assert_eq!(p.ly, 0);
    assert_eq!(p.stat & 0xF8, 0xF8);
}

#[test]
fn tall_sprites_use_two_tiles() {
    let mut p = Ppu::new();
    p.lcdc = 0x91 | 0x02 | 0x04;
    p.oam[0] = 16 - 8; // top row at line -8: line 0 is row 8
    p.oam[1] = 8;
    p.oam[2] = 3; // tiles 2 and 3
    p.vram[3 * 16] = 0x80; // tile 3 row 0
    p.render_sprites();
    assert_eq!(p.framebuffer[0], SHADE[3]);
}
