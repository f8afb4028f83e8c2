//! Blitter DMA engine emulation.
//!
//! The blitter performs bulk memory operations (copy, fill, line draw) using
//! up to four DMA channels (A, B, C, D) and a configurable minterm logic
//! function. Blits execute immediately (not cycle-accurately).
//!
//! The specification describes a blit operationally, one word (area mode) or
//! one pixel (line mode) at a time, exactly as the hardware sequences them;
//! the executable code is proved to follow that sequence.

use vstd::prelude::*;

verus! {

/// Channel enable bit for source A.
pub const USE_A: u16 = 0x0800;
/// Channel enable bit for source B.
pub const USE_B: u16 = 0x0400;
/// Channel enable bit for source C.
pub const USE_C: u16 = 0x0200;
/// Channel enable bit for destination D.
pub const USE_D: u16 = 0x0100;

/// Maximum width value (a width field of 0 means 64 words).
pub const MAX_WIDTH: u16 = 64;

/// Blitter state holding all registers and status flags.
#[derive(Clone, Debug)]
pub struct BlitterState {
    /// Control register 0: ASH\[15:12\], use flags\[11:8\], minterm\[7:0\].
    pub bltcon0: u16,
    /// Control register 1: BSH\[15:12\], EFE/IFE/FCI/DESC/LINE.
    pub bltcon1: u16,
    /// First word mask for channel A.
    pub bltafwm: u16,
    /// Last word mask for channel A.
    pub bltalwm: u16,
    /// Channel A pointer.
    pub bltapt: u32,
    /// Channel B pointer.
    pub bltbpt: u32,
    /// Channel C pointer.
    pub bltcpt: u32,
    /// Channel D pointer.
    pub bltdpt: u32,
    /// Channel A modulo.
    pub bltamod: i16,
    /// Channel B modulo.
    pub bltbmod: i16,
    /// Channel C modulo.
    pub bltcmod: i16,
    /// Channel D modulo.
    pub bltdmod: i16,
    /// Size register (height\[15:6\], width\[5:0\] in words).
    pub bltsize: u16,
    /// Active blit height in rows after legacy or ECS/AGA size decoding.
    pub vblitsize: u32,
    /// Active blit width in words after legacy or ECS/AGA size decoding.
    pub hblitsize: u32,
    /// Channel A data register.
    pub bltadat: u16,
    /// Channel B data register.
    pub bltbdat: u16,
    /// Channel C data register.
    pub bltcdat: u16,
    /// Previous raw B word for the blitter shift pipeline.
    pub bltbold: u16,
    /// Held/shifted B value used when channel B DMA is disabled.
    pub bltbhold: u16,
    /// Blitter busy flag.
    pub busy: bool,
    /// Blit complete flag (for interrupt generation).
    pub done: bool,
}

// ---------------------------------------------------------------------------
// Word-level specifications
// ---------------------------------------------------------------------------

/// The minterm function: the sum of the selected products of A, B, C and their
/// complements, bit 7 selecting `ABC` down to bit 0 selecting `!A!B!C`.
pub open spec fn spec_minterm(a: u16, b: u16, c: u16, m: u8) -> u16 {
    (if m & 0x01 != 0 { !a & !b & !c } else { 0u16 })
        | (if m & 0x02 != 0 { !a & !b & c } else { 0u16 })
        | (if m & 0x04 != 0 { !a & b & !c } else { 0u16 })
        | (if m & 0x08 != 0 { !a & b & c } else { 0u16 })
        | (if m & 0x10 != 0 { a & !b & !c } else { 0u16 })
        | (if m & 0x20 != 0 { a & !b & c } else { 0u16 })
        | (if m & 0x40 != 0 { a & b & !c } else { 0u16 })
        | (if m & 0x80 != 0 { a & b & c } else { 0u16 })
}

/// Big-endian word of chip RAM at `addr`, which wraps within chip RAM; a word
/// straddling the end of RAM reads as zero.
pub open spec fn spec_read_ram_word(ram: Seq<u8>, addr: u32) -> u16 {
    let idx = (addr as int) % (ram.len() as int);
    if idx + 1 < ram.len() {
        (ram[idx] as int * 256 + ram[idx + 1] as int) as u16
    } else {
        0
    }
}

/// Chip RAM after writing a big-endian word at `addr` (wrapping within RAM); a
/// word that would straddle the end of RAM is dropped.
pub open spec fn spec_write_ram_word(ram: Seq<u8>, addr: u32, value: u16) -> Seq<u8> {
    let idx = (addr as int) % (ram.len() as int);
    if idx + 1 < ram.len() {
        ram.update(idx, (value / 256) as u8).update(idx + 1, (value % 256) as u8)
    } else {
        ram
    }
}

/// A pointer moved by a signed modulo, wrapping at 2^32.
pub open spec fn spec_add_modulo(ptr: u32, modulo: i16) -> u32 {
    ((ptr as int + modulo as int) % 0x1_0000_0000int) as u32
}

/// A pointer moved against a signed modulo, wrapping at 2^32.
pub open spec fn spec_sub_modulo(ptr: u32, modulo: i16) -> u32 {
    ((ptr as int - modulo as int) % 0x1_0000_0000int) as u32
}

/// The end-of-row modulo step in the blit direction.
pub open spec fn spec_area_modulo(ptr: u32, modulo: i16, desc: bool) -> u32 {
    if desc {
        spec_sub_modulo(ptr, modulo)
    } else {
        spec_add_modulo(ptr, modulo)
    }
}

/// One word through the barrel shifter: the word is shifted right by `shift`
/// (left when descending), filling from the previous word of the same channel.
pub open spec fn spec_shift_pair(value: u16, previous: u16, shift: u16, desc: bool) -> u16 {
    if shift == 0 {
        value
    } else if desc {
        (((value as int * 0x10000 + previous as int) / vstd::arithmetic::power2::pow2((16 - shift) as nat) as int)
            % 0x10000) as u16
    } else {
        (((previous as int * 0x10000 + value as int) / vstd::arithmetic::power2::pow2(shift as nat) as int)
            % 0x10000) as u16
    }
}

/// Fill logic over the low `n` bits of a word, right to left, starting from
/// fill state `state`. Returns the filled bits and the fill state afterwards.
pub open spec fn spec_fill_bits(result: u16, state: bool, inclusive: bool, n: nat) -> (u16, bool)
    decreases n,
{
    if n == 0 {
        (0u16, state)
    } else {
        let (acc, st) = spec_fill_bits(result, state, inclusive, (n - 1) as nat);
        let bit = (n - 1) as u16;
        let mask = (1u16 << bit) as u16;
        if (result >> bit) & 1 != 0 {
            if inclusive {
                (acc | mask, !st)
            } else {
                (if !st { acc | mask } else { acc }, !st)
            }
        } else if st {
            (acc | mask, st)
        } else {
            (acc, st)
        }
    }
}

/// Word-processing pipeline carried across the words of an area blit.
#[derive(Clone, Copy, Debug)]
pub struct AreaPipe {
    /// Previous masked A word (shift source).
    pub a_prev: u16,
    /// Previous raw B word (shift source).
    pub b_prev: u16,
    /// Current shifted B value.
    pub b_hold: u16,
    /// D write delayed by one word, as the hardware pipeline does.
    pub pending: Option<(u32, u16)>,
    /// Fill carry across the words of a row.
    pub fill_state: bool,
}

/// First/last word mask for column `col` of a row of `width` words.
pub open spec fn spec_word_mask(b: BlitterState, col: u32, width: u32) -> u16 {
    if col == 0 && col == width - 1 {
        b.bltafwm & b.bltalwm
    } else if col == 0 {
        b.bltafwm
    } else if col == width - 1 {
        b.bltalwm
    } else {
        0xFFFFu16
    }
}

/// Pointer step between words: +2 ascending, -2 (modulo 2^32) descending.
pub open spec fn spec_step(desc: bool) -> u32 {
    if desc { 0xFFFF_FFFEu32 } else { 2u32 }
}

/// One word of an area blit: read the enabled sources, flush the delayed D
/// write, combine A, B and C through the minterm (and the fill logic when
/// `fill`), queue the result for D, and advance the enabled pointers; at the
/// end of a row apply the modulos.
pub open spec fn spec_area_word(
    b: BlitterState,
    p: AreaPipe,
    ram: Seq<u8>,
    col: u32,
    width: u32,
    fill: bool,
) -> (BlitterState, AreaPipe, Seq<u8>) {
    let use_a = b.bltcon0 & USE_A != 0;
    let use_b = b.bltcon0 & USE_B != 0;
    let use_c = b.bltcon0 & USE_C != 0;
    let use_d = b.bltcon0 & USE_D != 0;
    let ash = (b.bltcon0 >> 12u16) & 0xF;
    let bsh = (b.bltcon1 >> 12u16) & 0xF;
    let minterm = (b.bltcon0 & 0xFF) as u8;
    let desc = b.bltcon1 & 2 != 0;
    let inclusive = b.bltcon1 & 8 != 0;
    let fill_in = if fill && col == 0 { b.bltcon1 & 4 != 0 } else { p.fill_state };
    let a_raw = if use_a { spec_read_ram_word(ram, b.bltapt) } else { b.bltadat };
    let a_masked = a_raw & spec_word_mask(b, col, width);
    let a_shifted = spec_shift_pair(a_masked, p.a_prev, ash, desc);
    let b_raw = spec_read_ram_word(ram, b.bltbpt);
    let b_hold = if use_b { spec_shift_pair(b_raw, p.b_prev, bsh, desc) } else { p.b_hold };
    let c = if use_c { spec_read_ram_word(ram, b.bltcpt) } else { b.bltcdat };
    let ram1 = match p.pending {
        Some(w) => spec_write_ram_word(ram, w.0, w.1),
        None => ram,
    };
    let result = spec_minterm(a_shifted, b_hold, c, minterm);
    let filled = if fill { spec_fill_bits(result, fill_in, inclusive, 16) } else { (result, fill_in) };
    let step = spec_step(desc);
    let last = col == width - 1;
    let apt1 = if use_a { vstd::wrapping::u32_specs::wrapping_add(b.bltapt, step) } else { b.bltapt };
    let bpt1 = if use_b { vstd::wrapping::u32_specs::wrapping_add(b.bltbpt, step) } else { b.bltbpt };
    let cpt1 = if use_c { vstd::wrapping::u32_specs::wrapping_add(b.bltcpt, step) } else { b.bltcpt };
    let dpt1 = if use_d { vstd::wrapping::u32_specs::wrapping_add(b.bltdpt, step) } else { b.bltdpt };
    let b2 = BlitterState {
        bltadat: a_raw,
        bltbdat: if use_c && desc { c } else if use_b { b_raw } else { b.bltbdat },
        bltbold: if use_b { b_raw } else { b.bltbold },
        bltcdat: c,
        bltapt: if use_a && last { spec_area_modulo(apt1, b.bltamod, desc) } else { apt1 },
        bltbpt: if use_b && last { spec_area_modulo(bpt1, b.bltbmod, desc) } else { bpt1 },
        bltcpt: if use_c && last { spec_area_modulo(cpt1, b.bltcmod, desc) } else { cpt1 },
        bltdpt: if use_d && last { spec_area_modulo(dpt1, b.bltdmod, desc) } else { dpt1 },
        ..b
    };
    let p2 = AreaPipe {
        a_prev: a_masked,
        b_prev: if use_b { b_raw } else { p.b_prev },
        b_hold,
        pending: if use_d { Some((b.bltdpt, filled.0)) } else { None },
        fill_state: filled.1,
    };
    (b2, p2, ram1)
}

/// State of an area blit after its first `n` words.
pub open spec fn spec_area_run(b: BlitterState, p: AreaPipe, ram: Seq<u8>, width: u32, fill: bool, n: nat) -> (
    BlitterState,
    AreaPipe,
    Seq<u8>,
)
    decreases n,
{
    if n == 0 {
        (b, p, ram)
    } else {
        let prev = spec_area_run(b, p, ram, width, fill, (n - 1) as nat);
        spec_area_word(prev.0, prev.1, prev.2, (((n - 1) as int) % (width as int)) as u32, width, fill)
    }
}

/// The pipeline at the start of an area blit.
pub open spec fn spec_area_start(b: BlitterState) -> AreaPipe {
    AreaPipe { a_prev: 0, b_prev: 0, b_hold: b.bltbhold, pending: None, fill_state: false }
}

/// Whether a blit runs in fill mode (exclusive or inclusive fill enabled).
pub open spec fn spec_is_fill(b: BlitterState) -> bool {
    b.bltcon1 & 0x10 != 0 || b.bltcon1 & 0x08 != 0
}

/// Blitter state and chip RAM after a complete area blit.
pub open spec fn spec_area_blit(b: BlitterState, ram: Seq<u8>) -> (BlitterState, Seq<u8>) {
    if b.vblitsize == 0 || b.hblitsize == 0 {
        (b, ram)
    } else {
        let n = (b.vblitsize * b.hblitsize) as nat;
        let run = spec_area_run(b, spec_area_start(b), ram, b.hblitsize, spec_is_fill(b), n);
        let ram2 = match run.1.pending {
            Some(w) => spec_write_ram_word(run.2, w.0, w.1),
            None => run.2,
        };
        (BlitterState { bltbhold: run.1.b_hold, ..run.0 }, ram2)
    }
}

// ---------------------------------------------------------------------------
// Line mode
// ---------------------------------------------------------------------------

/// Move the line one pixel right: advance the A shift, stepping C on wrap.
pub open spec fn spec_line_incx(b: BlitterState) -> BlitterState {
    let ashift = (b.bltcon0 >> 12u16) & 0xF;
    BlitterState {
        bltcpt: if ashift == 15 { vstd::wrapping::u32_specs::wrapping_add(b.bltcpt, 2) } else { b.bltcpt },
        bltcon0: ((b.bltcon0 & 0x0FFF) | ((((ashift + 1) % 16) as u16) << 12u16)) as u16,
        ..b
    }
}

/// Move the line one pixel left.
pub open spec fn spec_line_decx(b: BlitterState) -> BlitterState {
    let ashift = (b.bltcon0 >> 12u16) & 0xF;
    BlitterState {
        bltcpt: if ashift == 0 { vstd::wrapping::u32_specs::wrapping_sub(b.bltcpt, 2) } else { b.bltcpt },
        bltcon0: ((b.bltcon0 & 0x0FFF) | ((((ashift + 15) % 16) as u16) << 12u16)) as u16,
        ..b
    }
}

/// Move the line one row down.
pub open spec fn spec_line_incy(b: BlitterState) -> BlitterState {
    BlitterState { bltcpt: spec_add_modulo(b.bltcpt, b.bltcmod), ..b }
}

/// Move the line one row up.
pub open spec fn spec_line_decy(b: BlitterState) -> BlitterState {
    BlitterState { bltcpt: spec_sub_modulo(b.bltcpt, b.bltcmod), ..b }
}

/// The B pattern word rotated right by the B shift, as used for line texture.
pub open spec fn spec_line_texture(bdat: u16, bshift: u16) -> u16 {
    ((bdat >> bshift) | (bdat << ((16 - bshift) % 16) as u16)) as u16
}

/// One pixel of a line blit (Bresenham stepping in the octant encoded in
/// `BLTCON1`, with the error term in `BLTAPT`). Returns the new state, chip
/// RAM and the single-dot flag.
pub open spec fn spec_line_pixel(b: BlitterState, ram: Seq<u8>, pixel: u32, onedot: bool) -> (
    BlitterState,
    Seq<u8>,
    bool,
) {
    let single = b.bltcon1 & 2 != 0;
    let draw = !single || !onedot;
    let negative = b.bltcon1 & 0x40 != 0;
    let current = b.bltcpt;
    let b1 = if b.bltcon0 & USE_A != 0 {
        let apt = b.bltapt as u16;
        let delta = if negative { b.bltbmod } else { b.bltamod };
        BlitterState { bltapt: (((apt as int + delta as int) % 0x10000) as u16) as u32, ..b }
    } else {
        b
    };
    let ram1 = if draw && b.bltcon0 & USE_C != 0 {
        let ashift = (b.bltcon0 >> 12u16) & 0xF;
        let a = ((b.bltadat & b.bltafwm) >> ashift) as u16;
        let bshift = (b.bltcon1 >> 12u16) & 0xF;
        let tex: u16 = if spec_line_texture(b.bltbdat, bshift) & 1 != 0 { 0xFFFF } else { 0 };
        let c = spec_read_ram_word(ram, current);
        let result = spec_minterm(a, tex, c, (b.bltcon0 & 0xFF) as u8);
        spec_write_ram_word(ram, if pixel == 0 { b.bltdpt } else { current }, result)
    } else {
        ram
    };
    let sud = b.bltcon1 & 0x10 != 0;
    let sul = b.bltcon1 & 0x08 != 0;
    let aul = b.bltcon1 & 0x04 != 0;
    let (b2, od2) = if !negative {
        if sud {
            (if sul { spec_line_decy(b1) } else { spec_line_incy(b1) }, false)
        } else {
            (if sul { spec_line_decx(b1) } else { spec_line_incx(b1) }, true)
        }
    } else {
        (b1, true)
    };
    let (b3, od3) = if sud {
        (if aul { spec_line_decx(b2) } else { spec_line_incx(b2) }, od2)
    } else {
        (if aul { spec_line_decy(b2) } else { spec_line_incy(b2) }, false)
    };
    let con1 = if b3.bltapt & 0x8000 != 0 { b3.bltcon1 | 0x40 } else { b3.bltcon1 & !0x40u16 };
    let bs = ((((con1 >> 12u16) & 0xF) + 15) % 16) as u16;
    (BlitterState { bltcon1: ((con1 & 0x0FFF) | (bs << 12u16)) as u16, bltdpt: b3.bltcpt, ..b3 }, ram1, od3)
}

/// State after the first `n` pixels of a line blit.
pub open spec fn spec_line_run(b: BlitterState, ram: Seq<u8>, n: nat) -> (BlitterState, Seq<u8>, bool)
    decreases n,
{
    if n == 0 {
        (b, ram, false)
    } else {
        let prev = spec_line_run(b, ram, (n - 1) as nat);
        spec_line_pixel(prev.0, prev.1, (n - 1) as u32, prev.2)
    }
}

/// Blitter state and chip RAM after a complete line blit.
pub open spec fn spec_line_blit(b: BlitterState, ram: Seq<u8>) -> (BlitterState, Seq<u8>) {
    if b.vblitsize == 0 || b.hblitsize < 2 {
        (b, ram)
    } else {
        let run = spec_line_run(b, ram, b.vblitsize as nat);
        (run.0, run.1)
    }
}

/// Decoded legacy `BLTSIZE`: height in bits 15–6 (0 means 1024), width in
/// bits 5–0 (0 means 64).
pub open spec fn spec_legacy_height(bltsize: u16) -> u32 {
    if bltsize / 64 == 0 { 1024 } else { (bltsize / 64) as u32 }
}

/// See [`spec_legacy_height`].
pub open spec fn spec_legacy_width(bltsize: u16) -> u32 {
    if bltsize % 64 == 0 { 64 } else { (bltsize % 64) as u32 }
}

impl Default for BlitterState {
    fn default() -> (r: Self)
        ensures
            r == BlitterState::spec_new(),
    {
        Self::new()
    }
}

impl BlitterState {
    /// The reset state: all registers zero except full first/last word masks.
    pub open spec fn spec_new() -> BlitterState {
        BlitterState {
            bltcon0: 0,
            bltcon1: 0,
            bltafwm: 0xFFFF,
            bltalwm: 0xFFFF,
            bltapt: 0,
            bltbpt: 0,
            bltcpt: 0,
            bltdpt: 0,
            bltamod: 0,
            bltbmod: 0,
            bltcmod: 0,
            bltdmod: 0,
            bltsize: 0,
            vblitsize: 0,
            hblitsize: 0,
            bltadat: 0,
            bltbdat: 0,
            bltcdat: 0,
            bltbold: 0,
            bltbhold: 0,
            busy: false,
            done: false,
        }
    }

    /// Create a new blitter in its initial (idle) state.
    pub fn new() -> (r: Self)
        ensures
            r == BlitterState::spec_new(),
    {
        Self {
            bltcon0: 0,
            bltcon1: 0,
            bltafwm: 0xFFFF,
            bltalwm: 0xFFFF,
            bltapt: 0,
            bltbpt: 0,
            bltcpt: 0,
            bltdpt: 0,
            bltamod: 0,
            bltbmod: 0,
            bltcmod: 0,
            bltdmod: 0,
            bltsize: 0,
            vblitsize: 0,
            hblitsize: 0,
            bltadat: 0,
            bltbdat: 0,
            bltcdat: 0,
            bltbold: 0,
            bltbhold: 0,
            busy: false,
            done: false,
        }
    }

    /// Returns `true` if the blitter is currently executing a blit.
    pub fn is_busy(&self) -> (r: bool)
        ensures
            r == self.busy,
    {
        self.busy
    }

    /// Called when `BLTSIZE` is written; initiates a blit operation. A blit
    /// with no decoded size takes its size from the legacy `BLTSIZE` register.
    pub fn start_blit(&mut self)
        ensures
            *final(self) == (BlitterState {
                vblitsize: if old(self).vblitsize == 0 && old(self).hblitsize == 0 {
                    spec_legacy_height(old(self).bltsize)
                } else {
                    old(self).vblitsize
                },
                hblitsize: if old(self).vblitsize == 0 && old(self).hblitsize == 0 {
                    spec_legacy_width(old(self).bltsize)
                } else {
                    old(self).hblitsize
                },
                bltbold: 0,
                busy: true,
                done: false,
                ..*old(self)
            }),
    {
        if self.vblitsize == 0 && self.hblitsize == 0 {
            self.decode_legacy_size();
        }
        self.bltbold = 0;
        self.busy = true;
        self.done = false;
    }

    /// The blitter after a legacy `BLTSIZE` write: the size decoded, the blit
    /// started.
    pub open spec fn spec_start_legacy(self, value: u16) -> BlitterState {
        BlitterState {
            bltsize: value,
            vblitsize: spec_legacy_height(value),
            hblitsize: spec_legacy_width(value),
            bltbold: 0,
            busy: true,
            done: false,
            ..self
        }
    }

    /// The blitter after a `BLTSIZV` write.
    pub open spec fn spec_set_vertical(self, value: u16) -> BlitterState {
        BlitterState { vblitsize: if value % 0x8000 == 0 { 0x8000 } else { (value % 0x8000) as u32 }, ..self }
    }

    /// The blitter after a `BLTSIZH` write: the width decoded, the blit started.
    pub open spec fn spec_start_horizontal(self, value: u16) -> BlitterState {
        BlitterState {
            hblitsize: if value % 0x800 == 0 { 0x800 } else { (value % 0x800) as u32 },
            vblitsize: if self.vblitsize == 0 { 0x8000 } else { self.vblitsize },
            bltbold: 0,
            busy: true,
            done: false,
            ..self
        }
    }

    /// The blitter after a `BLTBDAT` write: the word is shifted against the
    /// previous B word.
    pub open spec fn spec_load_bdat(self, value: u16) -> BlitterState {
        BlitterState {
            bltbdat: value,
            bltbhold: spec_shift_pair(value, self.bltbold, (self.bltcon1 >> 12u16) & 0xF, self.bltcon1 & 2 != 0),
            bltbold: value,
            ..self
        }
    }

    /// Decode and start a legacy `BLTSIZE` write.
    pub fn start_legacy_size_blit(&mut self, value: u16)
        ensures
            *final(self) == old(self).spec_start_legacy(value),
    {
        self.bltsize = value;
        self.decode_legacy_size();
        self.start_blit();
    }

    /// Decode the ECS/AGA vertical size register (15 bits; 0 means 32768).
    pub fn set_vertical_size(&mut self, value: u16)
        ensures
            *final(self) == old(self).spec_set_vertical(value),
    {
        assert(value & 0x7FFF == value % 0x8000) by (bit_vector);
        self.vblitsize = (value & 0x7FFF) as u32;
        if self.vblitsize == 0 {
            self.vblitsize = 0x8000;
        }
    }

    /// Decode and start an ECS/AGA horizontal size register write (11 bits;
    /// 0 means 2048). A still-undecoded height becomes 32768.
    pub fn start_horizontal_size_blit(&mut self, value: u16)
        ensures
            *final(self) == old(self).spec_start_horizontal(value),
    {
        assert(value & 0x07FF == value % 0x800) by (bit_vector);
        self.hblitsize = (value & 0x07FF) as u32;
        if self.vblitsize == 0 {
            self.vblitsize = 0x8000;
        }
        if self.hblitsize == 0 {
            self.hblitsize = 0x0800;
        }
        self.start_blit();
    }

    fn decode_legacy_size(&mut self)
        ensures
            *final(self) == (BlitterState {
                vblitsize: spec_legacy_height(old(self).bltsize),
                hblitsize: spec_legacy_width(old(self).bltsize),
                ..*old(self)
            }),
    {
        let s = self.bltsize;
        assert(s >> 6u16 == s / 64 && s & 0x3F == s % 64) by (bit_vector);
        self.vblitsize = (self.bltsize >> 6) as u32;
        self.hblitsize = (self.bltsize & 0x3F) as u32;
        if self.vblitsize == 0 {
            self.vblitsize = 1024;
        }
        if self.hblitsize == 0 {
            self.hblitsize = MAX_WIDTH as u32;
        }
    }

    /// Load the B data register and update the held shifted B value.
    pub fn load_bdat(&mut self, value: u16)
        ensures
            *final(self) == old(self).spec_load_bdat(value),
    {
        self.bltbdat = value;
        let shift = high_nibble(self.bltcon1);
        let desc = (self.bltcon1 & 0x02) != 0;
        self.bltbhold = shift_dma_pair(value, self.bltbold, shift, desc);
        self.bltbold = value;
    }

    /// Execute the full blit operation immediately: a line draw when
    /// `BLTCON1` bit 0 is set, otherwise an area copy or fill. Afterwards the
    /// blitter is idle and reports completion.
    pub fn execute_blit(&mut self, chip_ram: &mut [u8])
        requires
            old(chip_ram)@.len() > 0,
        ensures
            ({
                let r = if old(self).bltcon1 & 1 != 0 {
                    spec_line_blit(*old(self), old(chip_ram)@)
                } else {
                    spec_area_blit(*old(self), old(chip_ram)@)
                };
                &&& *final(self) == (BlitterState { busy: false, done: true, ..r.0 })
                &&& final(chip_ram)@ == r.1
            }),
            final(chip_ram)@.len() == old(chip_ram)@.len(),
    {
        if self.bltcon1 & 1 != 0 {
            self.execute_line(chip_ram);
        } else {
            self.execute_area(chip_ram);
        }
        self.busy = false;
        self.done = true;
    }

    /// Execute a line-draw blit (BLTCON1 bit 0 = LINE), the hardware Bresenham
    /// algorithm with the HRM register conventions.
    fn execute_line(&mut self, chip_ram: &mut [u8])
        requires
            old(chip_ram)@.len() > 0,
        ensures
            (*final(self), final(chip_ram)@) == spec_line_blit(*old(self), old(chip_ram)@),
            final(chip_ram)@.len() == old(chip_ram)@.len(),
    {
        let vblitsize = self.vblitsize;
        let hblitsize = self.hblitsize;
        if vblitsize == 0 || hblitsize < 2 {
            return;
        }
        let mut blitonedot: bool = false;
        let mut pixel: u32 = 0;
        while pixel < vblitsize
            invariant
                0 <= pixel <= vblitsize,
                vblitsize == old(self).vblitsize,
                chip_ram@.len() == old(chip_ram)@.len(),
                chip_ram@.len() > 0,
                (*self, chip_ram@, blitonedot) == spec_line_run(*old(self), old(chip_ram)@, pixel as nat),
            decreases vblitsize - pixel,
        {
            self.line_pixel(chip_ram, pixel, &mut blitonedot);
            pixel += 1;
        }
    }

    fn line_pixel(&mut self, chip_ram: &mut [u8], pixel: u32, blitonedot: &mut bool)
        requires
            old(chip_ram)@.len() > 0,
        ensures
            (*final(self), final(chip_ram)@, *final(blitonedot)) == spec_line_pixel(*old(self), old(chip_ram)@, pixel, *old(blitonedot)),
    {
        let single = (self.bltcon1 & 0x02) != 0;
        let minterm = (self.bltcon0 & 0xFF) as u8;
        let draw_pixel = !single || !*blitonedot;
        *blitonedot = true;
        let current_addr = self.bltcpt;
        let negative = (self.bltcon1 & 0x40) != 0;
        if self.bltcon0 & USE_A != 0 {
            let apt = self.bltapt as u16;
            let new_apt = if negative {
                wrap_add_i16(apt, self.bltbmod)
            } else {
                wrap_add_i16(apt, self.bltamod)
            };
            self.bltapt = new_apt as u32;
        }
        if draw_pixel && (self.bltcon0 & USE_C) != 0 {
            let ashift = high_nibble(self.bltcon0);
            let a = (self.bltadat & self.bltafwm) >> ashift;
            let bshift = high_nibble(self.bltcon1);
            let blineb = (self.bltbdat >> bshift) | (self.bltbdat << ((16u16 - bshift) % 16));
            let b: u16 = if blineb & 1 != 0 { 0xFFFF } else { 0 };
            let c = read_word(chip_ram, current_addr);
            let result = apply_minterm(a, b, c, minterm);
            let dest_addr = if pixel == 0 { self.bltdpt } else { current_addr };
            write_word(chip_ram, dest_addr, result);
        }
        let sud = (self.bltcon1 & 0x10) != 0;
        let sul = (self.bltcon1 & 0x08) != 0;
        let aul = (self.bltcon1 & 0x04) != 0;
        if !negative {
            if sud {
                if sul {
                    self.line_decy();
                } else {
                    self.line_incy();
                }
                *blitonedot = false;
            } else if sul {
                self.line_decx();
            } else {
                self.line_incx();
            }
        }
        if sud {
            if aul {
                self.line_decx();
            } else {
                self.line_incx();
            }
        } else {
            if aul {
                self.line_decy();
            } else {
                self.line_incy();
            }
            *blitonedot = false;
        }
        if (self.bltapt & 0x8000) != 0 {
            self.bltcon1 = self.bltcon1 | 0x40;
        } else {
            self.bltcon1 = self.bltcon1 & !0x40u16;
        }
        let bs_old = high_nibble(self.bltcon1);
        let bs = (bs_old + 15) % 16;
        self.bltcon1 = (self.bltcon1 & 0x0FFF) | (bs << 12);
        self.bltdpt = self.bltcpt;
    }

    fn line_incx(&mut self)
        ensures
            *final(self) == spec_line_incx(*old(self)),
    {
        let ashift = high_nibble(self.bltcon0);
        if ashift == 15 {
            self.bltcpt = self.bltcpt.wrapping_add(2);
        }
        let new_shift = (ashift + 1) % 16;
        self.bltcon0 = (self.bltcon0 & 0x0FFF) | (new_shift << 12);
    }

    fn line_decx(&mut self)
        ensures
            *final(self) == spec_line_decx(*old(self)),
    {
        let ashift = high_nibble(self.bltcon0);
        if ashift == 0 {
            self.bltcpt = self.bltcpt.wrapping_sub(2);
        }
        let new_shift = (ashift + 15) % 16;
        self.bltcon0 = (self.bltcon0 & 0x0FFF) | (new_shift << 12);
    }

    fn line_incy(&mut self)
        ensures
            *final(self) == spec_line_incy(*old(self)),
    {
        self.bltcpt = add_modulo(self.bltcpt, self.bltcmod);
    }

    fn line_decy(&mut self)
        ensures
            *final(self) == spec_line_decy(*old(self)),
    {
        self.bltcpt = sub_modulo(self.bltcpt, self.bltcmod);
    }

    /// Execute an area (copy/fill) blit.
    fn execute_area(&mut self, chip_ram: &mut [u8])
        requires
            old(chip_ram)@.len() > 0,
        ensures
            (*final(self), final(chip_ram)@) == spec_area_blit(*old(self), old(chip_ram)@),
            final(chip_ram)@.len() == old(chip_ram)@.len(),
    {
        let height = self.vblitsize;
        let width = self.hblitsize;
        if height == 0 || width == 0 {
            return;
        }
        let efe = (self.bltcon1 & 0x10) != 0;
        let ife = (self.bltcon1 & 0x08) != 0;
        if efe || ife {
            self.execute_area_fill(chip_ram);
        } else {
            self.execute_area_nofill(chip_ram);
        }
    }

    /// Area blit without fill.
    fn execute_area_nofill(&mut self, chip_ram: &mut [u8])
        requires
            old(chip_ram)@.len() > 0,
            0 < old(self).vblitsize,
            0 < old(self).hblitsize,
            !spec_is_fill(*old(self)),
        ensures
            (*final(self), final(chip_ram)@) == spec_area_blit(*old(self), old(chip_ram)@),
            final(chip_ram)@.len() == old(chip_ram)@.len(),
    {
        self.run_area(chip_ram, false);
    }

    /// Area blit with exclusive or inclusive fill: the fill state starts each
    /// row at the fill carry-in bit and toggles at each set bit of the minterm
    /// output, right to left.
    fn execute_area_fill(&mut self, chip_ram: &mut [u8])
        requires
            old(chip_ram)@.len() > 0,
            0 < old(self).vblitsize,
            0 < old(self).hblitsize,
            spec_is_fill(*old(self)),
        ensures
            (*final(self), final(chip_ram)@) == spec_area_blit(*old(self), old(chip_ram)@),
            final(chip_ram)@.len() == old(chip_ram)@.len(),
    {
        self.run_area(chip_ram, true);
    }

    fn run_area(&mut self, chip_ram: &mut [u8], fill: bool)
        requires
            old(chip_ram)@.len() > 0,
            0 < old(self).vblitsize,
            0 < old(self).hblitsize,
            fill == spec_is_fill(*old(self)),
        ensures
            (*final(self), final(chip_ram)@) == spec_area_blit(*old(self), old(chip_ram)@),
            final(chip_ram)@.len() == old(chip_ram)@.len(),
    {
        let height = self.vblitsize;
        let width = self.hblitsize;
        assert(height as u64 * width as u64 <= u64::MAX) by (nonlinear_arith)
            requires height <= u32::MAX, width <= u32::MAX;
        let total: u64 = height as u64 * width as u64;
        let ghost init = *self;
        let mut pipe = AreaPipe { a_prev: 0, b_prev: 0, b_hold: self.bltbhold, pending: None, fill_state: false };
        let mut n: u64 = 0;
        let mut col: u32 = 0;
        while n < total
            invariant
                0 <= n <= total,
                total == height * width,
                height == init.vblitsize,
                width == init.hblitsize,
                0 < width,
                0 < height,
                col == n % (width as u64),
                init == *old(self),
                chip_ram@.len() == old(chip_ram)@.len(),
                chip_ram@.len() > 0,
                (*self, pipe, chip_ram@) == spec_area_run(init, spec_area_start(init), old(chip_ram)@, width, fill, n as nat),
            decreases total - n,
        {
            self.area_word(chip_ram, &mut pipe, col, width, fill);
            n += 1;
            col = if col + 1 == width { 0 } else { col + 1 };
            proof {
                lemma_next_col((n - 1) as int, width as int);
            }
        }
        if let Some(w) = pipe.pending {
            write_word(chip_ram, w.0, w.1);
        }
        self.bltbhold = pipe.b_hold;
    }

    fn area_word(&mut self, chip_ram: &mut [u8], pipe: &mut AreaPipe, col: u32, width: u32, fill: bool)
        requires
            old(chip_ram)@.len() > 0,
            col < width,
        ensures
            (*final(self), *final(pipe), final(chip_ram)@) == spec_area_word(*old(self), *old(pipe), old(chip_ram)@, col, width, fill),
    {
        let use_a = self.bltcon0 & USE_A != 0;
        let use_b = self.bltcon0 & USE_B != 0;
        let use_c = self.bltcon0 & USE_C != 0;
        let use_d = self.bltcon0 & USE_D != 0;
        let ash = high_nibble(self.bltcon0);
        let bsh = high_nibble(self.bltcon1);
        let minterm = (self.bltcon0 & 0xFF) as u8;
        let desc = (self.bltcon1 & 0x02) != 0;
        let inclusive = (self.bltcon1 & 0x08) != 0;
        let step: u32 = if desc { 0xFFFF_FFFE } else { 2 };
        if fill && col == 0 {
            pipe.fill_state = (self.bltcon1 & 0x04) != 0;
        }
        let a_raw = if use_a {
            read_word(chip_ram, self.bltapt)
        } else {
            self.bltadat
        };
        self.bltadat = a_raw;
        let mask = if col == 0 && col == width - 1 {
            self.bltafwm & self.bltalwm
        } else if col == 0 {
            self.bltafwm
        } else if col == width - 1 {
            self.bltalwm
        } else {
            0xFFFF
        };
        let a_masked = a_raw & mask;
        let a_shifted = shift_dma_pair(a_masked, pipe.a_prev, ash, desc);
        pipe.a_prev = a_masked;
        if use_b {
            let b_raw = read_word(chip_ram, self.bltbpt);
            self.bltbdat = b_raw;
            pipe.b_hold = shift_dma_pair(b_raw, pipe.b_prev, bsh, desc);
            pipe.b_prev = b_raw;
            self.bltbold = b_raw;
        }
        let c = if use_c {
            let value = read_word(chip_ram, self.bltcpt);
            if desc {
                self.bltbdat = value;
            }
            value
        } else {
            self.bltcdat
        };
        self.bltcdat = c;
        if let Some(w) = pipe.pending {
            write_word(chip_ram, w.0, w.1);
        }
        let result = apply_minterm(a_shifted, pipe.b_hold, c, minterm);
        let out = if fill {
            fill_word(result, &mut pipe.fill_state, inclusive)
        } else {
            result
        };
        pipe.pending = if use_d { Some((self.bltdpt, out)) } else { None };
        let last = col == width - 1;
        if use_a {
            self.bltapt = self.bltapt.wrapping_add(step);
            if last {
                self.bltapt = apply_area_modulo(self.bltapt, self.bltamod, desc);
            }
        }
        if use_b {
            self.bltbpt = self.bltbpt.wrapping_add(step);
            if last {
                self.bltbpt = apply_area_modulo(self.bltbpt, self.bltbmod, desc);
            }
        }
        if use_c {
            self.bltcpt = self.bltcpt.wrapping_add(step);
            if last {
                self.bltcpt = apply_area_modulo(self.bltcpt, self.bltcmod, desc);
            }
        }
        if use_d {
            self.bltdpt = self.bltdpt.wrapping_add(step);
            if last {
                self.bltdpt = apply_area_modulo(self.bltdpt, self.bltdmod, desc);
            }
        }
    }
}

proof fn lemma_next_col(k: int, w: int)
    requires
        0 <= k,
        0 < w,
    ensures
        (k + 1) % w == (if k % w + 1 == w { 0 } else { k % w + 1 }),
{
    vstd::arithmetic::div_mod::lemma_fundamental_div_mod(k, w);
    let q = k / w;
    let r = k % w;
    assert(0 <= r < w);
    if r + 1 == w {
        assert(k + 1 == (q + 1) * w + 0) by (nonlinear_arith)
            requires k == w * q + r, r + 1 == w;
        vstd::arithmetic::div_mod::lemma_fundamental_div_mod_converse(k + 1, w, q + 1, 0);
    } else {
        assert(k + 1 == q * w + (r + 1)) by (nonlinear_arith)
            requires k == w * q + r;
        vstd::arithmetic::div_mod::lemma_fundamental_div_mod_converse(k + 1, w, q, r + 1);
    }
}

/// The 4-bit field at bits 15–12 of a control register.
fn high_nibble(x: u16) -> (r: u16)
    ensures
        r == (x >> 12u16) & 0xF,
        r < 16,
{
    assert((x >> 12u16) & 0xF < 16) by (bit_vector);
    (x >> 12) & 0xF
}

/// Apply the fill logic to one word, right to left, updating the fill state.
fn fill_word(result: u16, state: &mut bool, inclusive: bool) -> (r: u16)
    ensures
        (r, *final(state)) == spec_fill_bits(result, *old(state), inclusive, 16),
{
    let mut filled: u16 = 0;
    let mut bit: u16 = 0;
    while bit < 16
        invariant
            bit <= 16,
            (filled, *state) == spec_fill_bits(result, *old(state), inclusive, bit as nat),
        decreases 16 - bit,
    {
        let mask: u16 = 1u16 << bit;
        if (result >> bit) & 1 != 0 {
            if inclusive {
                filled = filled | mask;
                *state = !*state;
            } else {
                *state = !*state;
                if *state {
                    filled = filled | mask;
                }
            }
        } else if *state {
            filled = filled | mask;
        }
        bit += 1;
    }
    filled
}

/// Compute the minterm logic function for all 256 possible minterms.
pub fn apply_minterm(a: u16, b: u16, c: u16, minterm: u8) -> (r: u16)
    ensures
        r == spec_minterm(a, b, c, minterm),
{
    let t1: u16 = if minterm & 0x01 != 0 { !a & !b & !c } else { 0 };
    let t2: u16 = if minterm & 0x02 != 0 { !a & !b & c } else { 0 };
    let t3: u16 = if minterm & 0x04 != 0 { !a & b & !c } else { 0 };
    let t4: u16 = if minterm & 0x08 != 0 { !a & b & c } else { 0 };
    let t5: u16 = if minterm & 0x10 != 0 { a & !b & !c } else { 0 };
    let t6: u16 = if minterm & 0x20 != 0 { a & !b & c } else { 0 };
    let t7: u16 = if minterm & 0x40 != 0 { a & b & !c } else { 0 };
    let t8: u16 = if minterm & 0x80 != 0 { a & b & c } else { 0 };
    t1 | t2 | t3 | t4 | t5 | t6 | t7 | t8
}

/// Read a big-endian word from chip RAM at the given address (wrapping).
pub fn read_word(chip_ram: &[u8], addr: u32) -> (r: u16)
    requires
        chip_ram@.len() > 0,
    ensures
        r == spec_read_ram_word(chip_ram@, addr),
{
    let idx = (addr as usize) % chip_ram.len();
    if idx + 1 < chip_ram.len() {
        (chip_ram[idx] as u16) * 256 + (chip_ram[idx + 1] as u16)
    } else {
        0
    }
}

/// Write a big-endian word to chip RAM at the given address (wrapping).
pub fn write_word(chip_ram: &mut [u8], addr: u32, value: u16)
    requires
        old(chip_ram)@.len() > 0,
    ensures
        final(chip_ram)@ == spec_write_ram_word(old(chip_ram)@, addr, value),
{
    let idx = (addr as usize) % chip_ram.len();
    if idx + 1 < chip_ram.len() {
        chip_ram[idx] = (value / 256) as u8;
        chip_ram[idx + 1] = (value % 256) as u8;
    }
}

fn wrap_add_i16(ptr: u16, modulo: i16) -> (r: u16)
    ensures
        r == (ptr as int + modulo as int) % 0x10000,
{
    let sum = (ptr as i32) + (modulo as i32);
    if sum < 0 {
        (sum + 0x10000) as u16
    } else if sum >= 0x10000 {
        (sum - 0x10000) as u16
    } else {
        sum as u16
    }
}

/// Add a signed modulo to a pointer using wrapping arithmetic.
fn add_modulo(ptr: u32, modulo: i16) -> (r: u32)
    ensures
        r == spec_add_modulo(ptr, modulo),
{
    if modulo >= 0 {
        ptr.wrapping_add(modulo as u32)
    } else {
        ptr.wrapping_sub((0i32 - modulo as i32) as u32)
    }
}

/// Subtract a signed modulo from a pointer using wrapping arithmetic.
fn sub_modulo(ptr: u32, modulo: i16) -> (r: u32)
    ensures
        r == spec_sub_modulo(ptr, modulo),
{
    if modulo >= 0 {
        ptr.wrapping_sub(modulo as u32)
    } else {
        ptr.wrapping_add((0i32 - modulo as i32) as u32)
    }
}

/// Apply an area-blit row modulo in the active pointer direction.
fn apply_area_modulo(ptr: u32, modulo: i16, desc: bool) -> (r: u32)
    ensures
        r == spec_area_modulo(ptr, modulo, desc),
{
    if desc {
        sub_modulo(ptr, modulo)
    } else {
        add_modulo(ptr, modulo)
    }
}

/// Shift a source word with an explicit previous pipeline word.
pub fn shift_dma_pair(value: u16, previous: u16, shift: u16, desc: bool) -> (r: u16)
    requires
        shift < 16,
    ensures
        r == spec_shift_pair(value, previous, shift, desc),
{
    if shift == 0 {
        value
    } else {
        let hi: u32 = if desc { value as u32 } else { previous as u32 };
        let lo: u32 = if desc { previous as u32 } else { value as u32 };
        let amount: u32 = if desc { 16 - shift as u32 } else { shift as u32 };
        let joined: u32 = (hi << 16) | lo;
        let shifted = (joined >> amount) & 0xFFFF;
        proof {
            assert(joined == hi * 0x10000 + lo) by (bit_vector)
                requires hi < 0x10000 && lo < 0x10000 && joined == (hi << 16u32) | lo;
            vstd::bits::lemma_u32_shr_is_div(joined, amount);
            let q = joined >> amount;
            assert(q & 0xFFFF == q % 0x10000) by (bit_vector);
        }
        shifted as u16
    }
}

// ---------------------------------------------------------------------------
// Laws
// ---------------------------------------------------------------------------

/// Each output bit of the minterm function is the minterm bit selected by the
/// corresponding A, B and C bits (bit index `4A + 2B + C`).
pub proof fn law_minterm_truth_table(a: u16, b: u16, c: u16, m: u8, i: u16)
    requires
        i < 16,
    ensures
        ((spec_minterm(a, b, c, m) >> i) & 1 == 1) == (((m as u16) >> (((a >> i) & 1) * 4 + ((b >> i) & 1) * 2 + ((c >> i) & 1))) & 1 == 1),
{
    let r = spec_minterm(a, b, c, m);
    assert(r == spec_minterm(a, b, c, m));
    assert(((((if m & 0x01 != 0 { !a & !b & !c } else { 0u16 })
        | (if m & 0x02 != 0 { !a & !b & c } else { 0u16 })
        | (if m & 0x04 != 0 { !a & b & !c } else { 0u16 })
        | (if m & 0x08 != 0 { !a & b & c } else { 0u16 })
        | (if m & 0x10 != 0 { a & !b & !c } else { 0u16 })
        | (if m & 0x20 != 0 { a & !b & c } else { 0u16 })
        | (if m & 0x40 != 0 { a & b & !c } else { 0u16 })
        | (if m & 0x80 != 0 { a & b & c } else { 0u16 })) >> i) & 1 == 1)
        == (((m as u16) >> (((a >> i) & 1) * 4 + ((b >> i) & 1) * 2 + ((c >> i) & 1))) & 1 == 1)) by (bit_vector)
        requires i < 16;
}

/// Minterm `0xF0` copies A, and minterm `0xCA` is the cookie-cut `A ? B : C`.
pub proof fn law_minterm_copy_and_cookie_cut(a: u16, b: u16, c: u16)
    ensures
        spec_minterm(a, b, c, 0xF0) == a,
        spec_minterm(a, b, c, 0xCA) == (a & b) | (!a & c),
{
    assert(spec_minterm(a, b, c, 0xF0u8) == a && spec_minterm(a, b, c, 0xCAu8) == (a & b) | (!a & c))
        by (bit_vector);
}

/// An area blit with the D channel disabled never writes chip RAM.
pub proof fn law_area_blit_without_d_preserves_ram(b: BlitterState, ram: Seq<u8>)
    requires
        b.bltcon0 & USE_D == 0,
        ram.len() > 0,
    ensures
        spec_area_blit(b, ram).1 == ram,
{
    if !(b.vblitsize == 0 || b.hblitsize == 0) {
        lemma_area_run_without_d(b, spec_area_start(b), ram, b.hblitsize, spec_is_fill(b), (b.vblitsize * b.hblitsize) as nat);
    }
}

proof fn lemma_area_run_without_d(b: BlitterState, p: AreaPipe, ram: Seq<u8>, width: u32, fill: bool, n: nat)
    requires
        b.bltcon0 & USE_D == 0,
        p.pending is None,
    ensures
        spec_area_run(b, p, ram, width, fill, n).2 == ram,
        spec_area_run(b, p, ram, width, fill, n).1.pending is None,
        spec_area_run(b, p, ram, width, fill, n).0.bltcon0 == b.bltcon0,
    decreases n,
{
    if n > 0 {
        lemma_area_run_without_d(b, p, ram, width, fill, (n - 1) as nat);
    }
}

/// A one-word ascending blit with no shift writes, at the D pointer, the minterm
/// of the masked A word, the held B value and the C word.
pub proof fn law_single_word_blit(b: BlitterState, ram: Seq<u8>)
    requires
        ram.len() > 0,
        b.vblitsize == 1,
        b.hblitsize == 1,
        b.bltcon0 & USE_D != 0,
        b.bltcon0 & USE_B == 0,
        (b.bltcon0 >> 12u16) & 0xF == 0,
        b.bltcon1 & 0x1B == 0,
    ensures
        spec_area_blit(b, ram).1 == spec_write_ram_word(
            ram,
            b.bltdpt,
            spec_minterm(
                (if b.bltcon0 & USE_A != 0 { spec_read_ram_word(ram, b.bltapt) } else { b.bltadat }) & (b.bltafwm & b.bltalwm),
                b.bltbhold,
                if b.bltcon0 & USE_C != 0 { spec_read_ram_word(ram, b.bltcpt) } else { b.bltcdat },
                (b.bltcon0 & 0xFF) as u8,
            ),
        ),
{
    let con1 = b.bltcon1;
    assert(con1 & 0x1B == 0 ==> con1 & 0x10 == 0 && con1 & 0x08 == 0 && con1 & 2 == 0) by (bit_vector);
    assert(!spec_is_fill(b));
    assert(spec_area_run(b, spec_area_start(b), ram, 1, false, 0) == (b, spec_area_start(b), ram));
    assert(0int % 1int == 0);
    let w = spec_area_word(b, spec_area_start(b), ram, 0, 1, false);
    assert(spec_area_run(b, spec_area_start(b), ram, 1, false, 1) == w);
    assert(w.1.pending == Some((b.bltdpt, spec_minterm(
        (if b.bltcon0 & USE_A != 0 { spec_read_ram_word(ram, b.bltapt) } else { b.bltadat }) & (b.bltafwm & b.bltalwm),
        b.bltbhold,
        if b.bltcon0 & USE_C != 0 { spec_read_ram_word(ram, b.bltcpt) } else { b.bltcdat },
        (b.bltcon0 & 0xFF) as u8,
    ))));
    assert(w.2 == ram);
}


/// Bit `i` of the word `x`.
pub open spec fn spec_bit16(x: u16, i: int) -> bool {
    (x >> (i as u16)) & 1 == 1
}

/// How many of bits `0..n` of `x` are set.
pub open spec fn spec_ones_below(x: u16, n: nat) -> nat
    decreases n,
{
    if n == 0 {
        0
    } else {
        spec_ones_below(x, (n - 1) as nat) + (if spec_bit16(x, n - 1) { 1nat } else { 0nat })
    }
}

/// The fill state once bits `0..n` of `x` are scanned from `state`: it has
/// flipped once per set bit.
pub open spec fn spec_state_after(state: bool, x: u16, n: nat) -> bool {
    state != (spec_ones_below(x, n) % 2 == 1)
}

proof fn lemma_set_bit(acc: u16, k: u16, i: u16)
    by (bit_vector)
    requires
        k < 16,
        i < 16,
    ensures
        ((acc | (1u16 << k)) >> i) & 1 == (if i == k { 1u16 } else { (acc >> i) & 1 }),
        (0u16 >> i) & 1 == 0,
        (acc >> i) & 1 == 0 || (acc >> i) & 1 == 1,
{
}

proof fn lemma_fill_prefix(result: u16, state: bool, inclusive: bool, n: nat)
    requires
        n <= 16,
    ensures
        spec_fill_bits(result, state, inclusive, n).1 == spec_state_after(state, result, n),
        forall|i: int|
            0 <= i < 16 ==> #[trigger] spec_bit16(spec_fill_bits(result, state, inclusive, n).0, i) == (i < n && (
                spec_state_after(state, result, (i + 1) as nat) || (inclusive && spec_bit16(result, i)))),
    decreases n,
{
    if n == 0 {
        assert forall|i: int| 0 <= i < 16 implies !#[trigger] spec_bit16(spec_fill_bits(result, state, inclusive, n).0, i) by {
            lemma_set_bit(0, 0, i as u16);
        }
    } else {
        lemma_fill_prefix(result, state, inclusive, (n - 1) as nat);
        let prev = spec_fill_bits(result, state, inclusive, (n - 1) as nat);
        let k = (n - 1) as u16;
        lemma_set_bit(result, k, k);
        assert(spec_bit16(result, n - 1) == ((result >> k) & 1 != 0));
        assert forall|i: int| 0 <= i < 16 implies #[trigger] spec_bit16(spec_fill_bits(result, state, inclusive, n).0, i) == (i
            < n && (spec_state_after(state, result, (i + 1) as nat) || (inclusive && spec_bit16(result, i)))) by {
            lemma_set_bit(prev.0, k, i as u16);
            assert(spec_bit16(prev.0, i) == (i < n - 1 && (spec_state_after(state, result, (i + 1) as nat) || (inclusive
                && spec_bit16(result, i)))));
        }
    }
}

/// Area fill, word by word: scanning from bit 0 upwards from the carried-in
/// fill state, the state flips at every set bit. Exclusive fill outputs the
/// state after each bit, so an edge bit is set exactly when the state turns
/// on there; inclusive fill also sets every edge bit. The state carried out
/// is the carried-in state flipped once per set bit.
pub proof fn law_fill_word(result: u16, state: bool, i: int)
    requires
        0 <= i < 16,
    ensures
        spec_bit16(spec_fill_bits(result, state, false, 16).0, i) == spec_state_after(state, result, (i + 1) as nat),
        spec_bit16(spec_fill_bits(result, state, true, 16).0, i) == (spec_state_after(state, result, (i + 1) as nat)
            || spec_bit16(result, i)),
        spec_fill_bits(result, state, false, 16).1 == spec_state_after(state, result, 16),
        spec_fill_bits(result, state, true, 16).1 == spec_state_after(state, result, 16),
{
    lemma_fill_prefix(result, state, false, 16);
    lemma_fill_prefix(result, state, true, 16);
}

} // verus!
