//! The picture processing unit: LCD timing, scanline and sprite rendering.
use vstd::prelude::*;

verus! {

/// The RGB value shown for each of the four Game Boy shades.
pub open spec fn shade_rgb(shade: u8) -> u32 {
    if shade == 0 {
        0xFF9BBC0F
    } else if shade == 1 {
        0xFF8BAC0F
    } else if shade == 2 {
        0xFF306230
    } else {
        0xFF0F380F
    }
}

/// The 2-bit colour id of one pixel of a tile row: bit `bit` of the high
/// byte is the id's bit 1, bit `bit` of the low byte its bit 0.
pub open spec fn tile_color_id(lo: u8, hi: u8, bit: u8) -> u8 {
    (((hi >> bit) & 1) << 1) | ((lo >> bit) & 1)
}

/// The shade that a palette register maps a colour id (0..=3) to.
pub open spec fn palette_shade(palette: u8, color_id: u8) -> u8 {
    (palette >> ((color_id * 2) as u8)) & 0x03
}

/// Bit facts of the interrupt byte and of STAT: setting or clearing the
/// coincidence bit keeps the mode bits, and writing mode `m` sets them.
pub proof fn lemma_stat_bits(a: u8, m: u8)
    by (bit_vector)
    ensures
        a | 0 == a,
        (a | 1) | 2 == a | 3,
        0u8 | 2 == 2,
        !0x04u8 == 0xFBu8,
        (a | 0x04) & 0x03 == a & 0x03,
        (a & 0xFB) & 0x03 == a & 0x03,
        m <= 3 ==> ((a & 0xFC) | m) & 0x03 == m,
{
}

/// A colour id is at most 3: twice bit `bit` of the high byte plus bit
/// `bit` of the low byte.
pub proof fn lemma_color_id_bound(lo: u8, hi: u8, bit: u8)
    ensures
        tile_color_id(lo, hi, bit) <= 3,
        tile_color_id(lo, hi, bit) == ((hi >> bit) & 1) * 2 + ((lo >> bit) & 1),
{
    assert((((hi >> bit) & 1) << 1) | ((lo >> bit) & 1) <= 3 && (((hi >> bit) & 1) << 1) | ((lo
        >> bit) & 1) == ((hi >> bit) & 1) * 2 + ((lo >> bit) & 1)) by (bit_vector);
}

/// The mathematical state of the PPU.
#[verifier::ext_equal]
pub struct PpuView {
    pub vram: Seq<u8>,
    pub oam: Seq<u8>,
    pub lcdc: u8,
    pub stat: u8,
    pub scy: u8,
    pub scx: u8,
    pub ly: u8,
    pub lyc: u8,
    pub dma: u8,
    pub bgp: u8,
    pub obp0: u8,
    pub obp1: u8,
    pub wy: u8,
    pub wx: u8,
    pub dots: u32,
    pub framebuffer: Seq<u32>,
    pub window_line: u8,
}

/// The PPU state right after power-on.
pub open spec fn ppu_power_on() -> PpuView {
    PpuView {
        vram: Seq::new(0x2000, |i: int| 0u8),
        oam: Seq::new(0xA0, |i: int| 0u8),
        lcdc: 0x91,
        stat: 0x85,
        scy: 0,
        scx: 0,
        ly: 0,
        lyc: 0,
        dma: 0,
        bgp: 0xFC,
        obp0: 0xFF,
        obp1: 0xFF,
        wy: 0,
        wx: 0,
        dots: 0,
        framebuffer: Seq::new(23040, |i: int| 0u32),
        window_line: 0,
    }
}

impl PpuView {
    pub open spec fn lcd_on(self) -> bool {
        self.lcdc & 0x80 != 0
    }

    /// Whether the window layer is drawn on the current line.
    pub open spec fn window_visible(self) -> bool {
        self.lcdc & 0x20 != 0 && self.ly >= self.wy && self.wx <= 166
    }

    /// The first screen column covered by the window (WX - 7, at least 0).
    pub open spec fn window_start(self) -> int {
        if self.wx >= 7 {
            self.wx - 7
        } else {
            0
        }
    }

    pub open spec fn uses_window(self, x: int) -> bool {
        self.window_visible() && x >= self.window_start()
    }

    /// Map coordinates and tile map base (offset into VRAM) of screen column `x`.
    pub open spec fn map_coords(self, x: int) -> (int, int, int) {
        if self.uses_window(x) {
            (
                x - self.window_start(),
                self.window_line as int,
                if self.lcdc & 0x40 != 0 {
                    0x1C00int
                } else {
                    0x1800int
                },
            )
        } else {
            (
                (x + self.scx) % 256,
                (self.ly + self.scy) % 256,
                if self.lcdc & 0x08 != 0 {
                    0x1C00int
                } else {
                    0x1800int
                },
            )
        }
    }

    /// VRAM offset of the data of a background/window tile.
    pub open spec fn tile_data_base(self, tile_index: u8) -> int {
        if self.lcdc & 0x10 != 0 {
            tile_index * 16
        } else if tile_index < 128 {
            0x1000 + tile_index * 16
        } else {
            tile_index * 16
        }
    }

    /// The colour id of background/window pixel `x` of the current line.
    pub open spec fn bg_color_id(self, x: int) -> u8 {
        let (mx, my, base) = self.map_coords(x);
        let tile_index = self.vram[base + (my / 8) * 32 + mx / 8];
        let addr = self.tile_data_base(tile_index) + (my % 8) * 2;
        tile_color_id(self.vram[addr], self.vram[addr + 1], (7 - mx % 8) as u8)
    }

    /// The colour of background/window pixel `x` of the current line.
    pub open spec fn bg_pixel(self, x: int) -> u32 {
        shade_rgb(palette_shade(self.bgp, self.bg_color_id(x)))
    }

    pub open spec fn sprite_height(self) -> int {
        if self.lcdc & 0x04 != 0 {
            16
        } else {
            8
        }
    }

    pub open spec fn sprite_top(self, i: int) -> int {
        self.oam[4 * i] - 16
    }

    pub open spec fn sprite_left(self, i: int) -> int {
        self.oam[4 * i + 1] - 8
    }

    pub open spec fn sprite_attributes(self, i: int) -> u8 {
        self.oam[4 * i + 3]
    }

    /// Whether sprite `i` covers the current line.
    pub open spec fn sprite_on_line(self, i: int) -> bool {
        self.ly >= self.sprite_top(i) && self.ly < self.sprite_top(i) + self.sprite_height()
    }

    /// The row of sprite `i`'s tile drawn on the current line (after flipping).
    pub open spec fn sprite_row(self, i: int) -> int {
        let row = self.ly - self.sprite_top(i);
        if self.sprite_attributes(i) & 0x40 != 0 {
            self.sprite_height() - 1 - row
        } else {
            row
        }
    }

    /// VRAM offset of the two bytes of sprite `i`'s row on the current line.
    pub open spec fn sprite_row_addr(self, i: int) -> int {
        let row = self.sprite_row(i);
        let tile_index = self.oam[4 * i + 2];
        if self.sprite_height() == 16 {
            if row < 8 {
                (tile_index & 0xFE) * 16 + row * 2
            } else {
                (tile_index | 0x01) * 16 + (row - 8) * 2
            }
        } else {
            tile_index * 16 + row * 2
        }
    }

    /// The colour ids of the background/window pixels of the current line.
    pub open spec fn line_color_ids(self) -> Seq<u8> {
        Seq::new(160, |x: int| self.bg_color_id(x))
    }

    /// The colour that sprite `i` paints at screen column `sx` of the current
    /// line, if any, over a line whose background/window colour ids are
    /// `ids`. Transparent pixels paint nothing, nor do the pixels of a
    /// sprite with the priority flag (attribute bit 7) over a background or
    /// window pixel of non-zero colour id.
    pub open spec fn sprite_pixel(self, i: int, sx: int, ids: Seq<u8>) -> Option<u32> {
        let dx = sx - self.sprite_left(i);
        let attrs = self.sprite_attributes(i);
        let addr = self.sprite_row_addr(i);
        let bit = if attrs & 0x20 != 0 {
            dx
        } else {
            7 - dx
        };
        let color_id = tile_color_id(self.vram[addr], self.vram[addr + 1], bit as u8);
        let palette = if attrs & 0x10 != 0 {
            self.obp1
        } else {
            self.obp0
        };
        if !(0 <= dx < 8) || color_id == 0 {
            None
        } else if attrs & 0x80 != 0 && ids[sx] != 0 {
            None
        } else {
            Some(shade_rgb(palette_shade(palette, color_id)))
        }
    }

    /// `fb` with sprite `i` painted onto the current line.
    pub open spec fn draw_sprite(self, i: int, fb: Seq<u32>, ids: Seq<u8>) -> Seq<u32> {
        Seq::new(
            fb.len(),
            |k: int|
                {
                    let row_start = self.ly * 160;
                    if row_start <= k < row_start + 160 {
                        match self.sprite_pixel(i, k - row_start, ids) {
                            Some(c) => c,
                            None => fb[k],
                        }
                    } else {
                        fb[k]
                    }
                },
        )
    }

    /// The number of sprites before sprite `j` in OAM that cover the current line.
    pub open spec fn sprites_on_line_before(self, j: int) -> nat
        decreases j,
    {
        if j <= 0 {
            0
        } else {
            self.sprites_on_line_before(j - 1) + if self.sprite_on_line(j - 1) {
                1nat
            } else {
                0nat
            }
        }
    }

    /// Paints, in OAM order from sprite `i` on, the sprites that cover the
    /// current line, until ten sprites in all (`count` of them already) were
    /// found on the line.
    pub open spec fn draw_sprites_from(self, i: nat, count: nat, fb: Seq<u32>, ids: Seq<u8>) -> Seq<
        u32,
    >
        decreases 40 - i,
    {
        if i >= 40 || count >= 10 {
            fb
        } else if self.sprite_on_line(i as int) {
            self.draw_sprites_from(i + 1, count + 1, self.draw_sprite(i as int, fb, ids), ids)
        } else {
            self.draw_sprites_from(i + 1, count, fb, ids)
        }
    }

    /// The sprites of the current line drawn over a line whose
    /// background/window colour ids are `ids`.
    pub open spec fn render_sprites_with(self, ids: Seq<u8>) -> PpuView {
        if self.ly >= 144 || self.lcdc & 0x02 == 0 {
            self
        } else {
            PpuView { framebuffer: self.draw_sprites_from(0, 0, self.framebuffer, ids), ..self }
        }
    }

    /// The sprites of the current line drawn over the background/window as
    /// the current VRAM and registers give it.
    pub open spec fn render_sprites(self) -> PpuView {
        self.render_sprites_with(self.line_color_ids())
    }

    /// The frame buffer with the background/window row of the current line drawn.
    pub open spec fn background_row(self) -> Seq<u32> {
        Seq::new(
            self.framebuffer.len(),
            |k: int|
                {
                    let row_start = self.ly * 160;
                    if row_start <= k < row_start + 160 {
                        self.bg_pixel(k - row_start)
                    } else {
                        self.framebuffer[k]
                    }
                },
        )
    }

    /// The state as the drawing of the current line starts: the window line
    /// counter restarts at the top of the frame.
    pub open spec fn line_start(self) -> PpuView {
        PpuView {
            window_line: if self.ly == 0 {
                0
            } else {
                self.window_line
            },
            ..self
        }
    }

    pub open spec fn render_scanline(self) -> PpuView {
        if self.ly >= 144 {
            self
        } else {
            let p0 = self.line_start();
            let p1 = PpuView {
                framebuffer: p0.background_row(),
                window_line: if !p0.window_visible() {
                    p0.window_line
                } else if p0.window_line == 255 {
                    0
                } else {
                    (p0.window_line + 1) as u8
                },
                ..p0
            };
            p1.render_sprites_with(p0.line_color_ids())
        }
    }

    /// Whether `tick(cycles)` runs without overflowing a counter.
    pub open spec fn tick_ok(self, cycles: u8) -> bool {
        !self.lcd_on() || (self.dots + cycles <= u32::MAX && (self.dots + cycles < 456
            || self.ly < 255))
    }

    /// The LCD mode for the given line and dot.
    pub open spec fn mode_for(ly: u8, dots: u32) -> u8 {
        if ly >= 144 {
            1
        } else if dots < 80 {
            2
        } else if dots < 252 {
            3
        } else {
            0
        }
    }

    /// The state after the dots of one tick are added, and line end handled,
    /// with the STAT interrupt that the LY=LYC check requests.
    pub open spec fn advance_dots(self, cycles: u8) -> (PpuView, u8) {
        let d = self.dots + cycles;
        if d >= 456 {
            let ly1: u8 = if self.ly + 1 == 154 {
                0
            } else {
                (self.ly + 1) as u8
            };
            if ly1 == self.lyc {
                (
                    PpuView { dots: (d - 456) as u32, ly: ly1, stat: self.stat | 0x04, ..self },
                    if (self.stat | 0x04) & 0x40 != 0 {
                        2u8
                    } else {
                        0u8
                    },
                )
            } else {
                (PpuView { dots: (d - 456) as u32, ly: ly1, stat: self.stat & 0xFB, ..self }, 0u8)
            }
        } else {
            (PpuView { dots: d as u32, ..self }, 0u8)
        }
    }

    /// The interrupt bits requested on entering `mode` (bit 0 VBlank, bit 1 STAT).
    pub open spec fn mode_interrupts(stat: u8, mode: u8) -> u8 {
        if mode == 1 {
            if stat & 0x10 != 0 {
                3
            } else {
                1
            }
        } else if mode == 2 && stat & 0x20 != 0 {
            2
        } else if mode == 0 && stat & 0x08 != 0 {
            2
        } else {
            0
        }
    }

    /// One PPU tick of `cycles` dots: the new state and the interrupts requested.
    pub open spec fn tick(self, cycles: u8) -> (PpuView, u8) {
        if !self.lcd_on() {
            (PpuView { dots: 0, ly: 0, stat: self.stat & 0xFC, ..self }, 0u8)
        } else {
            let (p1, irq1) = self.advance_dots(cycles);
            let new_mode = PpuView::mode_for(p1.ly, p1.dots);
            if p1.stat & 0x03 != new_mode {
                let p2 = PpuView { stat: (p1.stat & 0xFC) | new_mode, ..p1 };
                let p3 = if new_mode == 3 && p2.ly < 144 {
                    p2.render_scanline()
                } else {
                    p2
                };
                (p3, irq1 | PpuView::mode_interrupts(p3.stat, new_mode))
            } else {
                (p1, irq1)
            }
        }
    }
}

pub struct Ppu {
    pub vram: [u8; 0x2000],
    pub oam: [u8; 0xA0],
    pub lcdc: u8,
    pub stat: u8,
    pub scy: u8,
    pub scx: u8,
    pub ly: u8,
    pub lyc: u8,
    pub dma: u8,
    pub bgp: u8,
    pub obp0: u8,
    pub obp1: u8,
    pub wy: u8,
    pub wx: u8,
    pub dots: u32,
    pub framebuffer: [u32; 23040],
    pub window_line: u8,
}

impl View for Ppu {
    type V = PpuView;

    open spec fn view(&self) -> PpuView {
        PpuView {
            vram: self.vram@,
            oam: self.oam@,
            lcdc: self.lcdc,
            stat: self.stat,
            scy: self.scy,
            scx: self.scx,
            ly: self.ly,
            lyc: self.lyc,
            dma: self.dma,
            bgp: self.bgp,
            obp0: self.obp0,
            obp1: self.obp1,
            wy: self.wy,
            wx: self.wx,
            dots: self.dots,
            framebuffer: self.framebuffer@,
            window_line: self.window_line,
        }
    }
}

fn shade_to_rgb(shade: u8) -> (rgb: u32)
    ensures
        rgb == shade_rgb(shade),
{
    match shade {
        0 => 0xFF9BBC0F,
        1 => 0xFF8BAC0F,
        2 => 0xFF306230,
        _ => 0xFF0F380F,
    }
}

impl Ppu {
    pub fn new() -> (ppu: Ppu)
        ensures
            ppu@ == ppu_power_on(),
    {
        let ppu = Ppu {
            vram: [0u8; 0x2000],
            oam: [0u8; 0xA0],
            lcdc: 0x91,
            stat: 0x85,
            scy: 0,
            scx: 0,
            ly: 0,
            lyc: 0,
            dma: 0,
            bgp: 0xFC,
            obp0: 0xFF,
            obp1: 0xFF,
            wy: 0,
            wx: 0,
            dots: 0,
            framebuffer: [0u32; 23040],
            window_line: 0,
        };
        assert(ppu.vram@ =~= ppu_power_on().vram);
        assert(ppu.oam@ =~= ppu_power_on().oam);
        assert(ppu.framebuffer@ =~= ppu_power_on().framebuffer);
        ppu
    }
}


impl Ppu {
    /// Colour id of background/window pixel `x` of the current line.
    fn background_color_id(&self, x: usize) -> (id: u8)
        requires
            x < 160,
            self.ly < 144,
        ensures
            id == self@.bg_color_id(x as int),
            id <= 3,
    {
        let y = self.ly as usize;
        let unsigned_tiles = (self.lcdc & 0x10) != 0;
        let window_enabled = (self.lcdc & 0x20) != 0;
        let wy = self.wy as usize;
        let wx = self.wx as usize;
        let rendering_window = window_enabled && y >= wy && wx <= 166;
        let wx_start = if wx >= 7 {
            wx - 7
        } else {
            0
        };
        let use_window = rendering_window && x >= wx_start;
        let (map_x, map_y, tile_map_base): (usize, usize, usize) = if use_window {
            // The window uses its own tile map (LCDC bit 6).
            let w_map_base: usize = if (self.lcdc & 0x40) != 0 {
                0x1C00
            } else {
                0x1800
            };
            (x - wx_start, self.window_line as usize, w_map_base)
        } else {
            // The background map is chosen by LCDC bit 3.
            let bg_map_base: usize = if (self.lcdc & 0x08) != 0 {
                0x1C00
            } else {
                0x1800
            };
            ((x + self.scx as usize) % 256, (y + self.scy as usize) % 256, bg_map_base)
        };
        let tile_offset = tile_map_base + (map_y / 8) * 32 + map_x / 8;
        let tile_index = self.vram[tile_offset];
        // Unsigned addressing from 0x8000, or signed from 0x9000.
        let tile_data_addr: usize = if unsigned_tiles {
            (tile_index as usize) * 16
        } else if tile_index < 128 {
            0x1000 + (tile_index as usize) * 16
        } else {
            // Indices 128..=255 are -128..=-1 from 0x9000, that is 0x8800..=0x8FF0.
            (tile_index as usize) * 16
        };
        let row = map_y % 8;
        let byte1 = self.vram[tile_data_addr + row * 2];
        let byte2 = self.vram[tile_data_addr + row * 2 + 1];
        let bit = (7 - (map_x % 8)) as u8;
        let color_bit1 = (byte1 >> bit) & 1;
        let color_bit2 = (byte2 >> bit) & 1;
        proof {
            lemma_color_id_bound(byte1, byte2, bit);
        }
        (color_bit2 << 1) | color_bit1
    }

    /// Paints the row of sprite `i` that covers the current line, over a line
    /// whose background/window colour ids are `ids`.
    fn draw_sprite_line(&mut self, i: usize, ids: &[u8; 160])
        requires
            i < 40,
            old(self).ly < 144,
            old(self)@.sprite_on_line(i as int),
        ensures
            final(self)@ == (PpuView {
                framebuffer: old(self)@.draw_sprite(i as int, old(self)@.framebuffer, ids@),
                ..old(self)@
            }),
    {
        let ghost p0 = self@;
        let y = self.ly as usize;
        let sprite_height: usize = if (self.lcdc & 0x04) != 0 {
            16
        } else {
            8
        };
        let oam_idx = i * 4;
        let sprite_y = self.oam[oam_idx] as i32 - 16;
        let sprite_x = self.oam[oam_idx + 1] as i32 - 8;
        let tile_index = self.oam[oam_idx + 2];
        let attributes = self.oam[oam_idx + 3];
        let y_flip = (attributes & 0x40) != 0;
        let x_flip = (attributes & 0x20) != 0;
        let use_obp1 = (attributes & 0x10) != 0;
        let bg_priority = (attributes & 0x80) != 0;
        let mut row = (y as i32 - sprite_y) as usize;
        if y_flip {
            row = sprite_height - 1 - row;
        }
        assert(row == p0.sprite_row(i as int));
        // Sprites always use the unsigned (0x8000) tile addressing.
        let tile_addr: usize = if sprite_height == 16 {
            let actual_tile = if row < 8 {
                tile_index & 0xFE
            } else {
                tile_index | 0x01
            };
            (actual_tile as usize) * 16 + (if row < 8 {
                row
            } else {
                row - 8
            }) * 2
        } else {
            (tile_index as usize) * 16 + row * 2
        };
        assert(tile_addr == p0.sprite_row_addr(i as int));
        let byte1 = self.vram[tile_addr];
        let byte2 = self.vram[tile_addr + 1];
        let mut x: i32 = 0;
        while x < 8
            invariant
                0 <= x <= 8,
                i < 40,
                y == p0.ly,
                y < 144,
                self@ == (PpuView { framebuffer: self@.framebuffer, ..p0 }),
                sprite_x == p0.sprite_left(i as int),
                tile_addr == p0.sprite_row_addr(i as int),
                tile_addr + 1 < 0x2000,
                byte1 == p0.vram[tile_addr as int],
                byte2 == p0.vram[tile_addr + 1],
                x_flip == (p0.sprite_attributes(i as int) & 0x20 != 0),
                use_obp1 == (p0.sprite_attributes(i as int) & 0x10 != 0),
                bg_priority == (p0.sprite_attributes(i as int) & 0x80 != 0),
                forall|k: int|
                    #![trigger self.framebuffer@[k]]
                    0 <= k < 23040 ==> self.framebuffer@[k] == (if y * 160 <= k < y * 160 + 160
                        && k - y * 160 - sprite_x < x {
                        match p0.sprite_pixel(i as int, k - y * 160, ids@) {
                            Some(c) => c,
                            None => p0.framebuffer[k],
                        }
                    } else {
                        p0.framebuffer[k]
                    }),
            decreases 8 - x,
        {
            let screen_x = sprite_x + x;
            if screen_x >= 0 && screen_x < 160 {
                let ghost sx = screen_x as int;
                let bit: u8 = if x_flip {
                    x as u8
                } else {
                    (7 - x) as u8
                };
                let color_bit1 = (byte1 >> bit) & 1;
                let color_bit2 = (byte2 >> bit) & 1;
                let color_id = (color_bit2 << 1) | color_bit1;
                // Colour id 0 is transparent for sprites.
                if color_id != 0 {
                    // With the priority flag set, the sprite shows only over
                    // background colour 0.
                    let hidden = bg_priority && ids[screen_x as usize] != 0;
                    if !hidden {
                        let palette = if use_obp1 {
                            self.obp1
                        } else {
                            self.obp0
                        };
                        proof {
                            lemma_color_id_bound(byte1, byte2, bit);
                        }
                        let palette_color = (palette >> (color_id * 2)) & 0x03;
                        let rgb = shade_to_rgb(palette_color);
                        self.framebuffer[y * 160 + screen_x as usize] = rgb;
                        assert(p0.sprite_pixel(i as int, sx, ids@) == Some(rgb));
                    } else {
                        assert(p0.sprite_pixel(i as int, sx, ids@) is None);
                    }
                } else {
                    assert(p0.sprite_pixel(i as int, sx, ids@) is None);
                }
            }
            x += 1;
        }
        assert(self.framebuffer@ =~= p0.draw_sprite(i as int, p0.framebuffer, ids@));
    }

    /// The colour ids of the background/window pixels of the current line.
    fn line_color_ids(&self) -> (ids: [u8; 160])
        requires
            self.ly < 144,
        ensures
            ids@ == self@.line_color_ids(),
    {
        let mut ids = [0u8; 160];
        for x in 0..160usize
            invariant
                self.ly < 144,
                ids@.len() == 160,
                forall|k: int| 0 <= k < x ==> #[trigger] ids@[k] == self@.bg_color_id(k),
        {
            let id = self.background_color_id(x);
            ids[x] = id;
        }
        assert(ids@ =~= self@.line_color_ids());
        ids
    }

    /// Draws the sprites of the current line over the frame buffer; a sprite
    /// with the priority flag shows only over background/window colour 0 of
    /// the line as VRAM and the registers now give it.
    pub fn render_sprites(&mut self)
        ensures
            final(self)@ == old(self)@.render_sprites(),
    {
        if self.ly >= 144 || (self.lcdc & 0x02) == 0 {
            return ;
        }
        let ids = self.line_color_ids();
        self.draw_sprites(&ids);
    }

    /// Draws the sprites of the current line over a line whose
    /// background/window colour ids are `ids`.
    fn draw_sprites(&mut self, ids: &[u8; 160])
        ensures
            final(self)@ == old(self)@.render_sprites_with(ids@),
    {
        let y = self.ly as usize;
        if y >= 144 {
            return ;
        }
        // Sprites are enabled by LCDC bit 1.

        if (self.lcdc & 0x02) == 0 {
            return ;
        }
        let sprite_height: i32 = if (self.lcdc & 0x04) != 0 {
            16
        } else {
            8
        };
        let ghost p0 = self@;
        let mut rendered_sprites: u32 = 0;
        // OAM holds 40 sprites; at most 10 are drawn per line.
        let mut i: usize = 0;
        while i < 40 && rendered_sprites < 10
            invariant
                i <= 40,
                rendered_sprites <= 10,
                y == p0.ly,
                y < 144,
                p0.lcdc & 0x02 != 0,
                sprite_height == p0.sprite_height(),
                self@ == (PpuView { framebuffer: self@.framebuffer, ..p0 }),
                p0.draw_sprites_from(i as nat, rendered_sprites as nat, self.framebuffer@, ids@)
                    == p0.draw_sprites_from(0, 0, p0.framebuffer, ids@),
            decreases 40 - i,
        {
            let oam_idx = i * 4;
            let sprite_y = self.oam[oam_idx] as i32 - 16;
            let ghost fb = self.framebuffer@;
            if (y as i32) >= sprite_y && (y as i32) < sprite_y + sprite_height {
                rendered_sprites += 1;
                assert(self@.sprite_on_line(i as int));
                self.draw_sprite_line(i, ids);
                assert(self.framebuffer@ =~= p0.draw_sprite(i as int, fb, ids@));
            } else {
                assert(!p0.sprite_on_line(i as int));
            }
            i += 1;
        }
    }

    /// Renders the background, window and sprites of the current line.
    pub fn render_scanline(&mut self)
        ensures
            final(self)@ == old(self)@.render_scanline(),
    {
        let y = self.ly as usize;
        if y >= 144 {
            return ;
        }
        // The window line counter restarts at the top of the frame.

        if y == 0 {
            self.window_line = 0;
        }
        let window_enabled = (self.lcdc & 0x20) != 0;
        let wy = self.wy as usize;
        let wx = self.wx as usize;
        let rendering_window = window_enabled && y >= wy && wx <= 166;
        let wx_start = if wx >= 7 {
            wx - 7
        } else {
            0
        };
        let mut window_drawn_this_line = false;
        let mut ids = [0u8; 160];
        let ghost p0 = self@;
        for x in 0..160usize
            invariant
                y == p0.ly,
                y < 144,
                self@ == (PpuView { framebuffer: self@.framebuffer, ..p0 }),
                ids@.len() == 160,
                forall|k: int| 0 <= k < x ==> #[trigger] ids@[k] == p0.bg_color_id(k),
                rendering_window == p0.window_visible(),
                wx_start == p0.window_start(),
                window_drawn_this_line == (p0.window_visible() && x > p0.window_start()),
                forall|k: int|
                    #![trigger self.framebuffer@[k]]
                    0 <= k < 23040 ==> self.framebuffer@[k] == (if y * 160 <= k < y * 160 + x {
                        p0.bg_pixel(k - y * 160)
                    } else {
                        p0.framebuffer[k]
                    }),
        {
            if rendering_window && x >= wx_start {
                window_drawn_this_line = true;
            }
            let color_id = self.background_color_id(x);
            assert(self@.bg_color_id(x as int) == p0.bg_color_id(x as int));
            let rgb = shade_to_rgb((self.bgp >> (color_id * 2)) & 0x03);
            ids[x] = color_id;
            self.framebuffer[y * 160 + x] = rgb;
        }
        assert(self.framebuffer@ =~= p0.background_row());
        assert(ids@ =~= p0.line_color_ids());
        // The window line counter advances when the window was visible.
        if window_drawn_this_line {
            self.window_line = self.window_line.wrapping_add(1);
        }
        // Sprite priority goes by the colour ids of the line just drawn.
        self.draw_sprites(&ids);
    }

    /// Advances the PPU by `cycles` dots; returns the interrupts requested
    /// (bit 0 VBlank, bit 1 STAT).
    pub fn tick(&mut self, cycles: u8) -> (interrupts: u8)
        requires
            old(self)@.tick_ok(cycles),
        ensures
            (final(self)@, interrupts) == old(self)@.tick(cycles),
            old(self).dots < 456 && old(self).ly < 154 ==> final(self).dots < 456
                && final(self).ly < 154,
    {
        let mut interrupts: u8 = 0;
        proof {
            lemma_stat_bits(0, 0);
        }
        // With the LCD off (LCDC bit 7 clear) the PPU does not run.
        if (self.lcdc & 0x80) == 0 {
            self.dots = 0;
            self.ly = 0;
            self.stat &= 0xFC;
            return 0;
        }
        self.dots += cycles as u32;
        // A scanline takes 456 dots.
        if self.dots >= 456 {
            self.dots -= 456;
            self.ly += 1;
            if self.ly == 154 {
                self.ly = 0;
            }
            // LY=LYC coincidence.
            if self.ly == self.lyc {
                self.stat |= 0x04;
                if (self.stat & 0x40) != 0 {
                    interrupts |= 0x02;
                }
            } else {
                self.stat &= !0x04;
            }
        }
        let ghost irq1 = interrupts;
        proof {
            lemma_stat_bits(irq1, 0);
        }
        let current_mode = self.stat & 0x03;
        let new_mode = if self.ly >= 144 {
            1
        } else if self.dots < 80 {
            2
        } else if self.dots < 252 {
            3
        } else {
            0
        };
        if current_mode != new_mode {
            self.stat = (self.stat & 0xFC) | new_mode;
            // The line is drawn as pixel transfer (mode 3) begins.
            if new_mode == 3 && self.ly < 144 {
                self.render_scanline();
            }
            if new_mode == 1 {
                interrupts |= 0x01;
                if (self.stat & 0x10) != 0 {
                    interrupts |= 0x02;
                }
            } else if new_mode == 2 && (self.stat & 0x20) != 0 {
                interrupts |= 0x02;
            } else if new_mode == 0 && (self.stat & 0x08) != 0 {
                interrupts |= 0x02;
            }
        }
        interrupts
    }
}

} // verus!
