//! Bitplane DMA and playfield rendering for the Amiga OCS/ECS/AGA chipset.

use vstd::prelude::*;

verus! {

/// First visible low-resolution hardware position in the normal OCS viewport.
pub const DISPLAY_LEFT_HPOS: u16 = 92;

/// High-resolution pixels per normal PAL line (lores pixels are doubled).
pub const DISPLAY_WIDTH: u32 = 736;

/// Maximum PAL display height in non-interlaced lines.
pub const DISPLAY_HEIGHT: u32 = 288;

/// lisa/AGA maximum number of bitplanes.
pub const MAX_PLANES: usize = 8;

/// Number of pixels per bitplane word.
pub const PIXELS_PER_WORD: u16 = 16;

/// Standard OCS low-resolution display window start.
pub const STANDARD_DIW_START_HPOS: u16 = 0x81;

/// Standard OCS bitplane data fetch start.
pub const STANDARD_DDF_START_HPOS: u16 = 0x38;

/// Display width as u16 for scanline iteration.
pub const LINE_WIDTH: u16 = 736;

/// RGB565 value of a 12-bit `$0RGB` colour: each 4-bit channel is widened by
/// replicating its top bits into the new low bits.
pub open spec fn spec_amiga_to_rgb565(color12: u16) -> u16 {
    let r4 = (color12 / 256) % 16;
    let g4 = (color12 / 16) % 16;
    let b4 = color12 % 16;
    let r5 = r4 * 2 + r4 / 8;
    let g6 = g4 * 4 + g4 / 4;
    let b5 = b4 * 2 + b4 / 8;
    (r5 * 2048 + g6 * 32 + b5) as u16
}

/// RGB565 value of a `$00RRGGBB` colour: the top 5, 6 and 5 bits of each channel.
pub open spec fn spec_rgb888_to_rgb565(rgb24: u32) -> u16 {
    let r = (rgb24 / 0x10000) % 256;
    let g = (rgb24 / 256) % 256;
    let b = rgb24 % 256;
    ((r / 8) * 2048 + (g / 4) * 32 + b / 8) as u16
}

/// Convert an Amiga 12-bit color (`$0RGB`, 4 bits per channel) to RGB565.
pub fn amiga_to_rgb565(color12: u16) -> (r: u16)
    ensures
        r == spec_amiga_to_rgb565(color12),
{
    let r4 = (color12 >> 8) & 0xF;
    let g4 = (color12 >> 4) & 0xF;
    let b4 = color12 & 0xF;
    let r5 = (r4 << 1) | (r4 >> 3);
    let g6 = (g4 << 2) | (g4 >> 2);
    let b5 = (b4 << 1) | (b4 >> 3);
    let out = (r5 << 11) | (g6 << 5) | b5;
    assert(out == spec_amiga_to_rgb565(color12)) by (bit_vector)
        requires
            r4 == (color12 >> 8) & 0xF,
            g4 == (color12 >> 4) & 0xF,
            b4 == color12 & 0xF,
            r5 == (r4 << 1) | (r4 >> 3),
            g6 == (g4 << 2) | (g4 >> 2),
            b5 == (b4 << 1) | (b4 >> 3),
            out == (r5 << 11) | (g6 << 5) | b5;
    out
}

/// Convert a 24-bit color (`$00RRGGBB` in a u32) to RGB565.
pub fn rgb888_to_rgb565(rgb24: u32) -> (r: u16)
    ensures
        r == spec_rgb888_to_rgb565(rgb24),
{
    let r = ((rgb24 >> 16) & 0xFF) as u16;
    let g = ((rgb24 >> 8) & 0xFF) as u16;
    let b = (rgb24 & 0xFF) as u16;
    let out = (((r >> 3) & 0x1F) << 11) | (((g >> 2) & 0x3F) << 5) | ((b >> 3) & 0x1F);
    assert(r == (rgb24 / 0x10000) % 256 && g == (rgb24 / 256) % 256 && b == rgb24 % 256 && out == (r / 8) * 2048
        + (g / 4) * 32 + b / 8) by (bit_vector)
        requires
            r == ((rgb24 >> 16) & 0xFF) as u16,
            g == ((rgb24 >> 8) & 0xFF) as u16,
            b == (rgb24 & 0xFF) as u16,
            out == (((r >> 3) & 0x1F) << 11) | (((g >> 2) & 0x3F) << 5) | ((b >> 3) & 0x1F);
    out
}

/// Big-endian word of chip RAM at byte address `addr`, or 0 when it would
/// straddle or lie past the end of RAM.
pub open spec fn spec_word_at(ram: Seq<u8>, addr: int) -> u16 {
    if 0 <= addr && addr + 1 < ram.len() {
        (ram[addr] as int * 256 + ram[addr + 1] as int) as u16
    } else {
        0
    }
}

/// Read a big-endian word from a byte slice, returning 0 when out of bounds.
pub fn word_at(data: &[u8], addr: u64) -> (r: u16)
    ensures
        r == spec_word_at(data@, addr as int),
{
    if addr < data.len() as u64 && addr + 1 < data.len() as u64 {
        let a = addr as usize;
        (data[a] as u16) * 256 + (data[a + 1] as u16)
    } else {
        0
    }
}

/// Number of active bitplanes selected by `BPLCON0`: bit 4 selects eight
/// planes (AGA), which is invalid (zero planes) together with a BPU count.
pub open spec fn spec_num_planes(bplcon0: u16) -> int {
    if bplcon0 & 0x0010 != 0 && bplcon0 & 0x7000 != 0 {
        0
    } else if bplcon0 & 0x0010 != 0 {
        8
    } else {
        ((bplcon0 >> 12u16) & 7) as int
    }
}

/// Display window `(hstart, hstop, vstart, vstop)` decoded from `DIWSTRT`,
/// `DIWSTOP` and `DIWHIGH`. Without `DIWHIGH`, OCS rules apply: `hstop` gains
/// bit 8, and `vstop` gains bit 8 unless its bit 7 is set.
pub open spec fn spec_display_window(diwstrt: u16, diwstop: u16, diwhigh: u16) -> (u16, u16, u16, u16) {
    let hstart = diwstrt & 0xFF;
    let vstart = diwstrt >> 8u16;
    let hstop = diwstop & 0xFF;
    let vstop = diwstop >> 8u16;
    if diwhigh != 0 {
        (
            hstart | (((diwhigh >> 5u16) & 1) << 8u16),
            hstop | (((diwhigh >> 13u16) & 1) << 8u16),
            vstart | ((diwhigh & 7) << 8u16),
            vstop | (((diwhigh >> 8u16) & 7) << 8u16),
        )
    } else {
        (hstart, hstop | 0x100, vstart, if vstop & 0x80 == 0 { vstop | 0x100 } else { vstop })
    }
}

/// Playfield state holding all registers and data needed for bitplane rendering.
#[derive(Debug, Clone)]
pub struct PlayfieldState {
    /// Bitplane control register 0 (plane count in bits 14-12).
    pub bplcon0: u16,
    /// Bitplane control register 1 (scroll delays).
    pub bplcon1: u16,
    /// Bitplane control register 2 (priority).
    pub bplcon2: u16,
    /// Display data fetch start.
    pub ddfstrt: u16,
    /// Display data fetch stop.
    pub ddfstop: u16,
    /// Display window start (upper-left).
    pub diwstrt: u16,
    /// Display window stop (lower-right).
    pub diwstop: u16,
    /// Display window high bits (ECS).
    pub diwhigh: u16,
    /// Bitplane control register 3 (AGA bank select / LOCT).
    pub bplcon3: u16,
    /// Bitplane control register 4 (AGA sprite bank / playfield XOR).
    pub bplcon4: u16,
    /// Fetch mode register (AGA sprite/playfield DMA width).
    pub fmode: u16,
    /// Bitplane pointers (24-bit addresses stored as u32).
    pub bplpt: [u32; MAX_PLANES],
    /// Bitplane data shift registers.
    pub bpldat: [u16; MAX_PLANES],
    /// Color palette (32 entries, 12-bit Amiga RGB).
    pub color: [u16; 32],
    /// AGA Color palette (256 entries, 24-bit RGB).
    pub color_aga: [u32; 256],
}

impl Default for PlayfieldState {
    fn default() -> (r: Self)
        ensures
            r.bplcon0 == 0 && r.bplcon4 == 0x0011 && r.diwhigh == 0,
            forall|i: int| 0 <= i < MAX_PLANES ==> r.bplpt@[i] == 0 && r.bpldat@[i] == 0,
            forall|i: int| 0 <= i < 32 ==> r.color@[i] == 0,
            forall|i: int| 0 <= i < 256 ==> r.color_aga@[i] == 0,
    {
        Self::new()
    }
}

impl PlayfieldState {
    /// Create a new `PlayfieldState` with default (zeroed) registers; `BPLCON4`
    /// starts at its AGA reset value `0x0011`.
    pub fn new() -> (r: Self)
        ensures
            r.bplcon0 == 0 && r.bplcon1 == 0 && r.bplcon2 == 0 && r.bplcon3 == 0,
            r.bplcon4 == 0x0011 && r.fmode == 0,
            r.ddfstrt == 0 && r.ddfstop == 0 && r.diwstrt == 0 && r.diwstop == 0 && r.diwhigh == 0,
            forall|i: int| 0 <= i < MAX_PLANES ==> r.bplpt@[i] == 0 && r.bpldat@[i] == 0,
            forall|i: int| 0 <= i < 32 ==> r.color@[i] == 0,
            forall|i: int| 0 <= i < 256 ==> r.color_aga@[i] == 0,
    {
        Self {
            bplcon0: 0,
            bplcon1: 0,
            bplcon2: 0,
            bplcon3: 0,
            bplcon4: 0x0011,
            fmode: 0,
            ddfstrt: 0,
            ddfstop: 0,
            diwstrt: 0,
            diwstop: 0,
            diwhigh: 0,
            bplpt: [0; MAX_PLANES],
            bpldat: [0; MAX_PLANES],
            color: [0; 32],
            color_aga: [0; 256],
        }
    }

    /// Extract the number of active bitplanes from BPLCON0 (up to 8 under AGA).
    pub fn num_planes(&self) -> (r: usize)
        ensures
            r == spec_num_planes(self.bplcon0),
            r <= MAX_PLANES,
    {
        let bplcon0 = self.bplcon0;
        if (bplcon0 & 0x0010) != 0 && (bplcon0 & 0x7000) != 0 {
            0
        } else if (bplcon0 & 0x0010) != 0 {
            8
        } else {
            assert((bplcon0 >> 12u16) & 7 <= 7) by (bit_vector);
            ((bplcon0 >> 12) & 0x7) as usize
        }
    }

    /// Returns the display window coordinates `(hstart, hstop, vstart, vstop)`.
    pub fn display_window(&self) -> (r: (u16, u16, u16, u16))
        ensures
            r == spec_display_window(self.diwstrt, self.diwstop, self.diwhigh),
    {
        let mut hstart = self.diwstrt & 0xFF;
        let mut vstart = self.diwstrt >> 8;
        let mut hstop = self.diwstop & 0xFF;
        let mut vstop = self.diwstop >> 8;
        if self.diwhigh != 0 {
            vstart = vstart | ((self.diwhigh & 0x7) << 8);
            hstart = hstart | (((self.diwhigh >> 5) & 1) << 8);
            vstop = vstop | (((self.diwhigh >> 8) & 0x7) << 8);
            hstop = hstop | (((self.diwhigh >> 13) & 1) << 8);
        } else {
            if (vstop & 0x80) == 0 {
                vstop = vstop | 0x100;
            }
            hstop = hstop | 0x100;
        }
        (hstart, hstop, vstart, vstop)
    }

    /// Fetch a 16-bit word from chip RAM at `bplpt[plane]` into
    /// `bpldat[plane]`, then advance the pointer by 2. A pointer out of
    /// bounds reads 0.
    pub fn fetch_bitplane_word(&mut self, plane: usize, chip_ram: &[u8])
        requires
            plane < MAX_PLANES,
        ensures
            *final(self) == spec_fetch(*old(self), chip_ram@, plane as int),
    {
        let w = word_at(chip_ram, self.bplpt[plane] as u64);
        self.bpldat[plane] = w;
        self.bplpt[plane] = self.bplpt[plane].wrapping_add(2);
    }

    /// Render one scanline of pixels into `line_buffer` as RGB565.
    ///
    /// For each output pixel inside the display window, bitplane bits are
    /// combined (plane 0 = least significant) into a palette index, or decoded
    /// as hold-and-modify in HAM mode; bitplane words are fetched from chip RAM
    /// as the scan reaches them, and the rest of the data fetch window is
    /// fetched after the visible pixels. Pixels outside the window, and past the
    /// fetched data, show the background colour.
    pub fn render_scanline(&mut self, line: u16, chip_ram: &[u8], line_buffer: &mut [u16])
        requires
            chip_ram@.len() > 0,
        ensures
            (*final(self), final(line_buffer)@) == spec_render_scanline(*old(self), line, chip_ram@, old(line_buffer)@),
    {
        let c = self.render_context(line);
        let mut st = RenderState {
            words_fetched: 0,
            current_word: None,
            hold_r: ((c.bg_color >> 16) & 0xFF) as u8,
            hold_g: ((c.bg_color >> 8) & 0xFF) as u8,
            hold_b: (c.bg_color & 0xFF) as u8,
        };
        proof {
            assert(st == spec_render_start(c));
        }
        let ghost pf0 = *self;
        let ghost buf0 = line_buffer@;
        let mut px: u16 = 0;
        while px < LINE_WIDTH
            invariant
                px <= LINE_WIDTH,
                chip_ram@.len() > 0,
                c == spec_render_context(pf0, line),
                spec_context_ok(c),
                st.words_fetched <= c.fetch_words,
                line_buffer@.len() == buf0.len(),
                (*self, st, line_buffer@) == spec_render_run(pf0, spec_render_start(c), buf0, chip_ram@, c, px as nat),
            decreases LINE_WIDTH - px,
        {
            self.render_px(line_buffer, chip_ram, px, c, &mut st);
            px += 1;
        }
        let ghost pf1 = *self;
        let ghost wf1 = st.words_fetched;
        let mut words_fetched = st.words_fetched;
        while c.line_visible && words_fetched < c.fetch_words
            invariant
                chip_ram@.len() > 0,
                spec_context_ok(c),
                wf1 <= words_fetched,
                c.line_visible ==> words_fetched <= c.fetch_words,
                !c.line_visible ==> words_fetched == wf1,
                *self == spec_fetch_words(pf1, chip_ram@, c.num_planes as int, (words_fetched - wf1) as nat),
            decreases c.fetch_words - words_fetched,
        {
            self.fetch_planes(chip_ram, c.num_planes);
            words_fetched += 1;
        }
        proof {
            if c.line_visible && wf1 < c.fetch_words {
                assert(words_fetched == c.fetch_words);
            }
        }
    }

    fn render_context(&self, line: u16) -> (c: RenderContext)
        ensures
            c == spec_render_context(*self, line),
            spec_context_ok(c),
    {
        let (hstart, hstop, vstart, vstop) = self.display_window();
        proof {
            let d = self.diwstrt;
            let h = self.diwhigh;
            assert((d & 0xFF) | (((h >> 5u16) & 1) << 8u16) <= 0x1FF && d & 0xFF <= 0x1FF) by (bit_vector);
        }
        let bg_color = if self.color_aga[0] == 0 && self.color[0] != 0 {
            expand_color12(self.color[0])
        } else {
            self.color_aga[0]
        };
        let bg = rgb888_to_rgb565(bg_color);
        let num_planes = self.num_planes();
        let hires = self.bplcon0 & 0x8000 != 0;
        let ham = (self.bplcon0 & 0x0800) != 0;
        let fetch_words = self.data_fetch_words(hires);
        let line_visible = line >= vstart && line < vstop;
        let source_offset = self.horizontal_source_offset(hstart);
        RenderContext {
            hstart,
            hstop,
            bg,
            bg_color,
            num_planes,
            hires,
            ham,
            fetch_words,
            line_visible,
            source_offset,
        }
    }

    fn fetch_planes(&mut self, chip_ram: &[u8], num_planes: usize)
        requires
            chip_ram@.len() > 0,
            num_planes <= MAX_PLANES,
        ensures
            *final(self) == spec_fetch_planes(*old(self), chip_ram@, num_planes as int),
    {
        let mut plane: usize = 0;
        while plane < num_planes
            invariant
                plane <= num_planes <= MAX_PLANES,
                chip_ram@.len() > 0,
                *self == spec_fetch_planes(*old(self), chip_ram@, plane as int),
            decreases num_planes - plane,
        {
            self.fetch_bitplane_word(plane, chip_ram);
            plane += 1;
        }
    }

    fn render_px(&mut self, line_buffer: &mut [u16], chip_ram: &[u8], px: u16, c: RenderContext, st: &mut RenderState)
        requires
            chip_ram@.len() > 0,
            spec_context_ok(c),
            old(st).words_fetched <= c.fetch_words,
            px < LINE_WIDTH,
        ensures
            (*final(self), *final(st), final(line_buffer)@) == spec_render_px(*old(self), *old(st), old(line_buffer)@, chip_ram@, c, px),
            final(st).words_fetched <= c.fetch_words,
    {
        let raster_hpos = DISPLAY_LEFT_HPOS + (px / 2);
        if !c.line_visible || c.num_planes == 0 || raster_hpos < c.hstart || raster_hpos >= c.hstop {
            set_pixel(line_buffer, px as usize, c.bg);
            return;
        }
        let window_px = raster_hpos - c.hstart;
        let source_px = if c.hires {
            (window_px + c.source_offset) * 2 + (px % 2)
        } else {
            window_px + c.source_offset
        };
        let source_word = (source_px / PIXELS_PER_WORD) as usize;
        if source_word >= c.fetch_words {
            set_pixel(line_buffer, px as usize, c.bg);
            return;
        }
        while !(st.current_word == Some(source_word)) && st.words_fetched <= source_word
            invariant
                chip_ram@.len() > 0,
                spec_context_ok(c),
                source_word < c.fetch_words,
                st.words_fetched <= c.fetch_words,
                spec_fetch_until(*old(self), *old(st), chip_ram@, source_word, c.num_planes as int)
                    == spec_fetch_until(*self, *st, chip_ram@, source_word, c.num_planes as int),
                st.hold_r == old(st).hold_r && st.hold_g == old(st).hold_g && st.hold_b == old(st).hold_b,
            decreases c.fetch_words - st.words_fetched,
        {
            self.fetch_planes(chip_ram, c.num_planes);
            st.current_word = Some(st.words_fetched);
            st.words_fetched = st.words_fetched + 1;
        }
        let bit_index = 15 - (source_px % PIXELS_PER_WORD);
        let color_index = self.color_index_at_bit(c.num_planes, bit_index);
        let rgb = self.pixel_rgb(color_index, c, st);
        set_pixel(line_buffer, px as usize, rgb);
    }

    fn pixel_rgb(&self, color_index: u16, c: RenderContext, st: &mut RenderState) -> (rgb: u16)
        requires
            spec_context_ok(c),
            color_index < 256,
        ensures
            (rgb, *final(st)) == spec_pixel_rgb(*self, color_index, c, *old(st)),
    {
        assert(color_index & 0x3F < 64 && color_index & 0x0F < 16) by (bit_vector);
        if c.ham {
            if c.num_planes == 8 {
                let control = (color_index >> 6) & 3;
                let data = color_index & 0x3F;
                if control == 0 {
                    let col = self.color_aga[data as usize];
                    st.hold_r = ((col >> 16) & 0xFF) as u8;
                    st.hold_g = ((col >> 8) & 0xFF) as u8;
                    st.hold_b = (col & 0xFF) as u8;
                } else if control == 1 {
                    st.hold_b = ((data << 2) | (data >> 4)) as u8;
                } else if control == 2 {
                    st.hold_r = ((data << 2) | (data >> 4)) as u8;
                } else {
                    st.hold_g = ((data << 2) | (data >> 4)) as u8;
                }
            } else {
                let control = (color_index >> 4) & 3;
                let data = color_index & 0x0F;
                if control == 0 {
                    let col = if self.color_aga[data as usize] == 0 && self.color[data as usize] != 0 {
                        expand_color12(self.color[data as usize])
                    } else {
                        self.color_aga[data as usize]
                    };
                    st.hold_r = ((col >> 16) & 0xFF) as u8;
                    st.hold_g = ((col >> 8) & 0xFF) as u8;
                    st.hold_b = (col & 0xFF) as u8;
                } else if control == 1 {
                    st.hold_b = ((data << 4) | data) as u8;
                } else if control == 2 {
                    st.hold_r = ((data << 4) | data) as u8;
                } else {
                    st.hold_g = ((data << 4) | data) as u8;
                }
            }
            (((st.hold_r as u16) >> 3) << 11) | (((st.hold_g as u16) >> 2) << 5) | ((st.hold_b as u16) >> 3)
        } else {
            let idx = color_index as usize;
            let color_val = if self.color_aga[idx] == 0 && self.color[idx % 32] != 0 {
                expand_color12(self.color[idx % 32])
            } else {
                self.color_aga[idx]
            };
            st.hold_r = ((color_val >> 16) & 0xFF) as u8;
            st.hold_g = ((color_val >> 8) & 0xFF) as u8;
            st.hold_b = (color_val & 0xFF) as u8;
            rgb888_to_rgb565(color_val)
        }
    }

    fn horizontal_source_offset(&self, hstart: u16) -> (r: u16)
        ensures
            r == spec_source_offset(*self, hstart),
            r <= hstart / 2,
    {
        if self.ddfstrt == 0 && self.ddfstop == 0 {
            return 0;
        }
        let fetch_start = self.ddfstrt & 0x00FC;
        let standard_phase = STANDARD_DIW_START_HPOS - STANDARD_DDF_START_HPOS;
        let phase = hstart.saturating_sub(fetch_start);
        phase.saturating_sub(standard_phase) / 2
    }

    fn color_index_at_bit(&self, num_planes: usize, bit_index: u16) -> (r: u16)
        requires
            num_planes <= MAX_PLANES,
            bit_index < 16,
        ensures
            r == spec_color_index(*self, num_planes as int, bit_index),
            r < 256,
    {
        let mut color_index: u16 = 0;
        let mut plane: usize = 0;
        while plane < num_planes
            invariant
                plane <= num_planes <= MAX_PLANES,
                bit_index < 16,
                color_index == spec_color_index(*self, plane as int, bit_index),
                color_index < spec_pow2_u16(plane as int),
            decreases num_planes - plane,
        {
            let d = self.bpldat[plane];
            let bitv = (d >> bit_index) & 1;
            let p = plane as u16;
            let before = color_index;
            proof {
                assert((d >> bit_index) & 1 <= 1) by (bit_vector);
                lemma_or_bit_bound(before, bitv, p);
            }
            color_index = color_index | (bitv << p);
            plane += 1;
        }
        proof {
            lemma_pow2_u16_le_256(num_planes as int);
        }
        color_index
    }

    fn data_fetch_words(&self, hires: bool) -> (r: usize)
        ensures
            r == spec_data_fetch_words(*self, hires),
            r <= 66,
    {
        if self.ddfstrt == 0 && self.ddfstop == 0 {
            return if hires { 40 } else { 20 };
        }
        let start = self.ddfstrt & 0x00FC;
        let stop = self.ddfstop & 0x00FC;
        if stop < start {
            return 0;
        }
        proof {
            let d1 = self.ddfstrt;
            let d2 = self.ddfstop;
            assert(d1 & 0xFC <= 0xFC && d2 & 0xFC <= 0xFC) by (bit_vector);
        }
        if hires {
            (((stop - start) / 4) + 2) as usize
        } else {
            (((stop - start) / 8) + 1) as usize
        }
    }
}

/// A 12-bit `$0RGB` colour widened to `$00RRGGBB` by repeating each nibble.
pub open spec fn spec_expand_color12(c: u16) -> u32 {
    let r = ((c >> 8u16) & 0xF) as u32;
    let g = ((c >> 4u16) & 0xF) as u32;
    let b = (c & 0xF) as u32;
    (((r | (r << 4u32)) << 16u32) | ((g | (g << 4u32)) << 8u32) | (b | (b << 4u32))) as u32
}

fn expand_color12(c: u16) -> (r: u32)
    ensures
        r == spec_expand_color12(c),
{
    let r = ((c >> 8) & 0xF) as u32;
    let g = ((c >> 4) & 0xF) as u32;
    let b = (c & 0xF) as u32;
    ((r | (r << 4)) << 16) | ((g | (g << 4)) << 8) | (b | (b << 4))
}

fn set_pixel(line_buffer: &mut [u16], px: usize, value: u16)
    ensures
        final(line_buffer)@ == spec_set_pixel(old(line_buffer)@, px as int, value),
{
    if px < line_buffer.len() {
        line_buffer[px] = value;
    }
}

/// The line buffer with pixel `px` set, when it exists.
pub open spec fn spec_set_pixel(buf: Seq<u16>, px: int, value: u16) -> Seq<u16> {
    if 0 <= px < buf.len() {
        buf.update(px, value)
    } else {
        buf
    }
}

/// Playfield state after fetching the next word of bitplane `plane`: the
/// word at the pointer, 0 when the pointer is out of bounds.
pub open spec fn spec_fetch(pf: PlayfieldState, ram: Seq<u8>, plane: int) -> PlayfieldState {
    PlayfieldState {
        bpldat: vstd::array::spec_array_update(
            pf.bpldat,
            plane,
            spec_word_at(ram, pf.bplpt@[plane] as int),
        ),
        bplpt: vstd::array::spec_array_update(
            pf.bplpt,
            plane,
            vstd::wrapping::u32_specs::wrapping_add(pf.bplpt@[plane], 2),
        ),
        ..pf
    }
}

/// Playfield state after fetching one word of each of the first `n` planes, in order.
pub open spec fn spec_fetch_planes(pf: PlayfieldState, ram: Seq<u8>, n: int) -> PlayfieldState
    decreases n,
{
    if n <= 0 {
        pf
    } else {
        spec_fetch(spec_fetch_planes(pf, ram, n - 1), ram, n - 1)
    }
}

/// Playfield state after `k` rounds of fetching one word of each of `n` planes.
pub open spec fn spec_fetch_words(pf: PlayfieldState, ram: Seq<u8>, n: int, k: nat) -> PlayfieldState
    decreases k,
{
    if k == 0 {
        pf
    } else {
        spec_fetch_planes(spec_fetch_words(pf, ram, n, (k - 1) as nat), ram, n)
    }
}

/// Palette index formed from bit `bit` of the first `n` bitplane data words,
/// plane 0 supplying the least significant bit.
pub open spec fn spec_color_index(pf: PlayfieldState, n: int, bit: u16) -> u16
    decreases n,
{
    if n <= 0 {
        0
    } else {
        (spec_color_index(pf, n - 1, bit) | (((pf.bpldat@[n - 1] >> bit) & 1) << ((n - 1) as u16))) as u16
    }
}

/// `2^n` for small `n`, as a bound on an `n`-bit palette index.
pub open spec fn spec_pow2_u16(n: int) -> int
    decreases n,
{
    if n <= 0 { 1 } else { 2 * spec_pow2_u16(n - 1) }
}

proof fn lemma_pow2_u16_le_256(n: int)
    requires
        0 <= n <= 8,
    ensures
        spec_pow2_u16(n) <= 256,
{
    reveal_with_fuel(spec_pow2_u16, 9);
}

proof fn lemma_or_bit_bound(acc: u16, bitv: u16, p: u16)
    requires
        p < 8,
        bitv <= 1,
        acc < spec_pow2_u16(p as int),
    ensures
        (acc | (bitv << p)) < spec_pow2_u16(p as int + 1),
{
    lemma_pow2_u16_values(p as int);
    let bound = spec_pow2_u16(p as int) as u16;
    assert(spec_pow2_u16(p as int + 1) == 2 * spec_pow2_u16(p as int));
    assert(acc < bound && bound == (1u16 << p) && p < 8 && bitv <= 1 ==> (acc | (bitv << p)) < 2 * bound) by (bit_vector);
}

proof fn lemma_pow2_u16_values(n: int)
    requires
        0 <= n < 8,
    ensures
        spec_pow2_u16(n) == (1u16 << (n as u16)),
        spec_pow2_u16(n) <= 128,
    decreases n,
{
    reveal_with_fuel(spec_pow2_u16, 8);
    let k: u16 = if n > 0 { (n - 1) as u16 } else { 0 };
    assert((1u16 << 0u16) == 1 && (k < 7 ==> (1u16 << (k + 1)) == 2 * (1u16 << k))) by (bit_vector);
    if n > 0 {
        lemma_pow2_u16_values(n - 1);
    }
}

/// Horizontal phase between the data fetch start and the display window start,
/// in source pixels, relative to the standard OCS phase.
pub open spec fn spec_source_offset(pf: PlayfieldState, hstart: u16) -> u16 {
    if pf.ddfstrt == 0 && pf.ddfstop == 0 {
        0
    } else {
        let fetch_start = pf.ddfstrt & 0x00FC;
        let phase = if hstart >= fetch_start { (hstart - fetch_start) as u16 } else { 0u16 };
        let standard = (STANDARD_DIW_START_HPOS - STANDARD_DDF_START_HPOS) as u16;
        ((if phase >= standard { (phase - standard) as u16 } else { 0u16 }) / 2) as u16
    }
}

/// Words fetched per plane on a line: from `DDFSTRT` to `DDFSTOP`, or the
/// standard 20 (lores) / 40 (hires) when neither is programmed.
pub open spec fn spec_data_fetch_words(pf: PlayfieldState, hires: bool) -> usize {
    if pf.ddfstrt == 0 && pf.ddfstop == 0 {
        if hires { 40 } else { 20 }
    } else {
        let start = pf.ddfstrt & 0x00FC;
        let stop = pf.ddfstop & 0x00FC;
        if stop < start {
            0
        } else if hires {
            (((stop - start) / 4) + 2) as usize
        } else {
            (((stop - start) / 8) + 1) as usize
        }
    }
}

/// Per-line values fixed before the first pixel is rendered.
#[derive(Clone, Copy, Debug)]
pub struct RenderContext {
    /// Display window horizontal start.
    pub hstart: u16,
    /// Display window horizontal stop.
    pub hstop: u16,
    /// Background colour as RGB565.
    pub bg: u16,
    /// Background colour as `$00RRGGBB`.
    pub bg_color: u32,
    /// Active bitplanes.
    pub num_planes: usize,
    /// High-resolution mode.
    pub hires: bool,
    /// Hold-and-modify mode.
    pub ham: bool,
    /// Words fetched per plane on this line.
    pub fetch_words: usize,
    /// Whether the line is inside the vertical display window.
    pub line_visible: bool,
    /// Hidden source pixels left of the display window.
    pub source_offset: u16,
}

/// Mutable per-line rendering state.
#[derive(Clone, Copy, Debug)]
pub struct RenderState {
    /// Bitplane words fetched so far on this line.
    pub words_fetched: usize,
    /// Index of the word currently in the data registers.
    pub current_word: Option<usize>,
    /// Held red channel (HAM).
    pub hold_r: u8,
    /// Held green channel (HAM).
    pub hold_g: u8,
    /// Held blue channel (HAM).
    pub hold_b: u8,
}

/// The per-line values for rendering line `line`.
pub open spec fn spec_render_context(pf: PlayfieldState, line: u16) -> RenderContext {
    let w = spec_display_window(pf.diwstrt, pf.diwstop, pf.diwhigh);
    let bg_color = if pf.color_aga@[0] == 0 && pf.color@[0] != 0 {
        spec_expand_color12(pf.color@[0])
    } else {
        pf.color_aga@[0]
    };
    let hires = pf.bplcon0 & 0x8000 != 0;
    RenderContext {
        hstart: w.0,
        hstop: w.1,
        bg: spec_rgb888_to_rgb565(bg_color),
        bg_color,
        num_planes: spec_num_planes(pf.bplcon0) as usize,
        hires,
        ham: pf.bplcon0 & 0x0800 != 0,
        fetch_words: spec_data_fetch_words(pf, hires),
        line_visible: line >= w.2 && line < w.3,
        source_offset: spec_source_offset(pf, w.0),
    }
}

/// Bounds every rendering context satisfies.
pub open spec fn spec_context_ok(c: RenderContext) -> bool {
    c.num_planes <= MAX_PLANES && c.fetch_words <= 66 && c.source_offset <= 0xFF && c.hstart <= 0x1FF
}

/// Rendering state at the start of a line: nothing fetched, and the hold
/// registers loaded with the background colour.
pub open spec fn spec_render_start(c: RenderContext) -> RenderState {
    RenderState {
        words_fetched: 0,
        current_word: None,
        hold_r: ((c.bg_color >> 16u32) & 0xFF) as u8,
        hold_g: ((c.bg_color >> 8u32) & 0xFF) as u8,
        hold_b: (c.bg_color & 0xFF) as u8,
    }
}

/// Fetch rounds of every active plane until the data registers hold source word `w`.
pub open spec fn spec_fetch_until(pf: PlayfieldState, st: RenderState, ram: Seq<u8>, w: usize, n: int) -> (
    PlayfieldState,
    RenderState,
)
    decreases w + 1 - st.words_fetched,
{
    if st.current_word == Some(w) || st.words_fetched > w || st.words_fetched >= usize::MAX {
        (pf, st)
    } else {
        spec_fetch_until(
            spec_fetch_planes(pf, ram, n),
            RenderState { current_word: Some(st.words_fetched), words_fetched: (st.words_fetched + 1) as usize, ..st },
            ram,
            w,
            n,
        )
    }
}

/// Output colour of a pixel with palette index `ci`, and the hold registers after it.
pub open spec fn spec_pixel_rgb(pf: PlayfieldState, ci: u16, c: RenderContext, st: RenderState) -> (u16, RenderState) {
    if c.ham {
        let st2 = if c.num_planes == 8 {
            let control = (ci >> 6u16) & 3;
            let data = ci & 0x3F;
            let v = ((data << 2u16) | (data >> 4u16)) as u8;
            if control == 0 {
                let col = pf.color_aga@[data as int];
                RenderState {
                    hold_r: ((col >> 16u32) & 0xFF) as u8,
                    hold_g: ((col >> 8u32) & 0xFF) as u8,
                    hold_b: (col & 0xFF) as u8,
                    ..st
                }
            } else if control == 1 {
                RenderState { hold_b: v, ..st }
            } else if control == 2 {
                RenderState { hold_r: v, ..st }
            } else {
                RenderState { hold_g: v, ..st }
            }
        } else {
            let control = (ci >> 4u16) & 3;
            let data = ci & 0x0F;
            let v = ((data << 4u16) | data) as u8;
            if control == 0 {
                let col = if pf.color_aga@[data as int] == 0 && pf.color@[data as int] != 0 {
                    spec_expand_color12(pf.color@[data as int])
                } else {
                    pf.color_aga@[data as int]
                };
                RenderState {
                    hold_r: ((col >> 16u32) & 0xFF) as u8,
                    hold_g: ((col >> 8u32) & 0xFF) as u8,
                    hold_b: (col & 0xFF) as u8,
                    ..st
                }
            } else if control == 1 {
                RenderState { hold_b: v, ..st }
            } else if control == 2 {
                RenderState { hold_r: v, ..st }
            } else {
                RenderState { hold_g: v, ..st }
            }
        };
        (((((st2.hold_r as u16) >> 3u16) << 11u16) | (((st2.hold_g as u16) >> 2u16) << 5u16)
            | ((st2.hold_b as u16) >> 3u16)) as u16, st2)
    } else {
        let col = if pf.color_aga@[ci as int] == 0 && pf.color@[ci as int % 32] != 0 {
            spec_expand_color12(pf.color@[ci as int % 32])
        } else {
            pf.color_aga@[ci as int]
        };
        (spec_rgb888_to_rgb565(col), RenderState {
            hold_r: ((col >> 16u32) & 0xFF) as u8,
            hold_g: ((col >> 8u32) & 0xFF) as u8,
            hold_b: (col & 0xFF) as u8,
            ..st
        })
    }
}

/// One output pixel of a scanline.
pub open spec fn spec_render_px(
    pf: PlayfieldState,
    st: RenderState,
    buf: Seq<u16>,
    ram: Seq<u8>,
    c: RenderContext,
    px: u16,
) -> (PlayfieldState, RenderState, Seq<u16>) {
    let raster_hpos = DISPLAY_LEFT_HPOS + px / 2;
    if !c.line_visible || c.num_planes == 0 || raster_hpos < c.hstart || raster_hpos >= c.hstop {
        (pf, st, spec_set_pixel(buf, px as int, c.bg))
    } else {
        let window_px = raster_hpos - c.hstart;
        let source_px = if c.hires {
            (window_px + c.source_offset) * 2 + px % 2
        } else {
            window_px + c.source_offset
        };
        let source_word = source_px / 16;
        if source_word >= c.fetch_words {
            (pf, st, spec_set_pixel(buf, px as int, c.bg))
        } else {
            let f = spec_fetch_until(pf, st, ram, source_word as usize, c.num_planes as int);
            let ci = spec_color_index(f.0, c.num_planes as int, (15 - source_px % 16) as u16);
            let out = spec_pixel_rgb(f.0, ci, c, f.1);
            (f.0, out.1, spec_set_pixel(buf, px as int, out.0))
        }
    }
}

/// State after rendering the first `n` pixels of a scanline.
pub open spec fn spec_render_run(
    pf: PlayfieldState,
    st: RenderState,
    buf: Seq<u16>,
    ram: Seq<u8>,
    c: RenderContext,
    n: nat,
) -> (PlayfieldState, RenderState, Seq<u16>)
    decreases n,
{
    if n == 0 {
        (pf, st, buf)
    } else {
        let prev = spec_render_run(pf, st, buf, ram, c, (n - 1) as nat);
        spec_render_px(prev.0, prev.1, prev.2, ram, c, (n - 1) as u16)
    }
}

/// Playfield state and line buffer after rendering line `line`: every pixel of
/// the line, then the remaining words of the data fetch window.
pub open spec fn spec_render_scanline(pf: PlayfieldState, line: u16, ram: Seq<u8>, buf: Seq<u16>) -> (PlayfieldState, Seq<u16>) {
    let c = spec_render_context(pf, line);
    let run = spec_render_run(pf, spec_render_start(c), buf, ram, c, LINE_WIDTH as nat);
    let rest = if c.line_visible && run.1.words_fetched < c.fetch_words {
        (c.fetch_words - run.1.words_fetched) as nat
    } else {
        0nat
    };
    (spec_fetch_words(run.0, ram, c.num_planes as int, rest), run.2)
}

/// Lines outside the vertical display window are drawn entirely in the
/// background colour, and no bitplane data is fetched for them.
pub proof fn law_invisible_line_is_background(pf: PlayfieldState, line: u16, ram: Seq<u8>, buf: Seq<u16>, px: int)
    requires
        !spec_render_context(pf, line).line_visible,
        0 <= px < buf.len(),
        px < LINE_WIDTH,
    ensures
        spec_render_scanline(pf, line, ram, buf).1[px] == spec_render_context(pf, line).bg,
        spec_render_scanline(pf, line, ram, buf).0 == pf,
{
    let c = spec_render_context(pf, line);
    lemma_invisible_run(pf, spec_render_start(c), buf, ram, c, LINE_WIDTH as nat);
}

proof fn lemma_invisible_run(pf: PlayfieldState, st: RenderState, buf: Seq<u16>, ram: Seq<u8>, c: RenderContext, n: nat)
    requires
        !c.line_visible,
        n <= LINE_WIDTH,
    ensures
        spec_render_run(pf, st, buf, ram, c, n).0 == pf,
        spec_render_run(pf, st, buf, ram, c, n).1 == st,
        spec_render_run(pf, st, buf, ram, c, n).2.len() == buf.len(),
        forall|px: int| 0 <= px < n && px < buf.len() ==> #[trigger] spec_render_run(pf, st, buf, ram, c, n).2[px] == c.bg,
        forall|px: int| n <= px < buf.len() ==> #[trigger] spec_render_run(pf, st, buf, ram, c, n).2[px] == buf[px],
    decreases n,
{
    if n > 0 {
        lemma_invisible_run(pf, st, buf, ram, c, (n - 1) as nat);
    }
}

} // verus!
