//! Video capture diagnostics and small input helpers of the emulator loop:
//! the per-scanline register snapshot, the keyboard code translation, and the
//! CIA timer start-up workaround.

use vstd::prelude::*;
use crate::playfield::MAX_PLANES;

verus! {

/// Number of words dumped per bitplane in scanline capture manifests.
pub const VIDEO_SCANLINE_WORD_DUMP: usize = 48;

/// Number of early active scanlines retained for video capture diagnostics.
pub const EARLY_VIDEO_SCANLINE_DUMP: usize = 24;

/// Video register snapshot from the most recent rendered bitplane scanline.
#[derive(Debug, Clone, Copy, PartialEq, Eq)]
pub struct VideoScanlineSnapshot {
    /// Beam vertical position.
    pub vpos: u16,
    /// Destination framebuffer line.
    pub framebuffer_line: u16,
    /// Display window horizontal start.
    pub hstart: u16,
    /// Display window horizontal stop.
    pub hstop: u16,
    /// Display window vertical start.
    pub vstart: u16,
    /// Display window vertical stop.
    pub vstop: u16,
    /// Bitplane control register 0.
    pub bplcon0: u16,
    /// Bitplane control register 1.
    pub bplcon1: u16,
    /// Display data fetch start.
    pub ddfstrt: u16,
    /// Display data fetch stop.
    pub ddfstop: u16,
    /// Odd bitplane modulo.
    pub bpl1mod: u16,
    /// Even bitplane modulo.
    pub bpl2mod: u16,
    /// Bitplane pointers at the start of this scanline.
    pub bplpt: [u32; MAX_PLANES],
    /// Chip RAM words sampled from each bitplane pointer at the start of this scanline.
    pub bitplane_words: [[u16; VIDEO_SCANLINE_WORD_DUMP]; MAX_PLANES],
    /// Active plane count.
    pub num_planes: usize,
}

/// Word `index` sampled for `plane`: the big-endian chip RAM word at the
/// plane's pointer plus `2 * index`, wrapping within chip RAM; a word that
/// would straddle the end, an inactive plane and empty chip RAM give 0.
pub open spec fn spec_sampled_word(ram: Seq<u8>, bplpt: Seq<u32>, num_planes: int, plane: int, index: int) -> u16 {
    if ram.len() == 0 || plane >= num_planes || plane >= MAX_PLANES {
        0
    } else {
        let addr = (bplpt[plane] + 2 * index) % (ram.len() as int);
        if addr + 1 < ram.len() {
            (ram[addr] * 256 + ram[addr + 1]) as u16
        } else {
            0
        }
    }
}

/// Sample the first words of each active bitplane for a capture manifest.
pub fn snapshot_bitplane_words(chip_ram: &[u8], bplpt: [u32; MAX_PLANES], num_planes: usize) -> (r: [[u16;
    VIDEO_SCANLINE_WORD_DUMP]; MAX_PLANES])
    ensures
        forall|p: int, i: int|
            0 <= p < MAX_PLANES && 0 <= i < VIDEO_SCANLINE_WORD_DUMP ==> #[trigger] r@[p]@[i] == spec_sampled_word(
                chip_ram@,
                bplpt@,
                num_planes as int,
                p,
                i,
            ),
{
    let zero_row: [u16; VIDEO_SCANLINE_WORD_DUMP] = [0; VIDEO_SCANLINE_WORD_DUMP];
    let mut words: [[u16; VIDEO_SCANLINE_WORD_DUMP]; MAX_PLANES] = [zero_row; MAX_PLANES];
    let len = chip_ram.len();
    let planes = if num_planes < MAX_PLANES { num_planes } else { MAX_PLANES };
    let mut plane: usize = 0;
    while plane < MAX_PLANES
        invariant
            plane <= MAX_PLANES,
            planes == (if num_planes < MAX_PLANES { num_planes } else { MAX_PLANES }),
            len == chip_ram@.len(),
            forall|i: int| 0 <= i < VIDEO_SCANLINE_WORD_DUMP ==> #[trigger] zero_row@[i] == 0,
            forall|p: int, i: int|
                0 <= p < plane && 0 <= i < VIDEO_SCANLINE_WORD_DUMP ==> #[trigger] words@[p]@[i]
                    == spec_sampled_word(chip_ram@, bplpt@, num_planes as int, p, i),
            forall|p: int, i: int|
                plane <= p < MAX_PLANES && 0 <= i < VIDEO_SCANLINE_WORD_DUMP ==> #[trigger] words@[p]@[i] == 0,
        decreases MAX_PLANES - plane,
    {
        let mut row: [u16; VIDEO_SCANLINE_WORD_DUMP] = [0; VIDEO_SCANLINE_WORD_DUMP];
        if len > 0 && plane < planes {
            let base = bplpt[plane] as u64;
            let mut index: usize = 0;
            while index < VIDEO_SCANLINE_WORD_DUMP
                invariant
                    index <= VIDEO_SCANLINE_WORD_DUMP,
                    len == chip_ram@.len(),
                    len > 0,
                    plane < planes,
                    plane < MAX_PLANES,
                    planes == (if num_planes < MAX_PLANES { num_planes } else { MAX_PLANES }),
                    base == bplpt@[plane as int],
                    forall|i: int| 0 <= i < index ==> #[trigger] row@[i] == spec_sampled_word(
                        chip_ram@,
                        bplpt@,
                        num_planes as int,
                        plane as int,
                        i,
                    ),
                decreases VIDEO_SCANLINE_WORD_DUMP - index,
            {
                let addr = ((base + 2 * index as u64) % len as u64) as usize;
                if addr + 1 < len {
                    row[index] = chip_ram[addr] as u16 * 256 + chip_ram[addr + 1] as u16;
                } else {
                    row[index] = 0;
                }
                index += 1;
            }
        }
        words[plane] = row;
        plane += 1;
    }
    words
}

/// The CIA-A serial data register value for an Amiga raw keycode. The ROM's
/// keyboard handler decodes the register by inverting it and rotating it
/// right by one bit, so the value sent is the keycode rotated left by one
/// bit and inverted.
pub fn translate_amiga_keycode(keycode: u8) -> (r: u8)
    ensures
        r == 255 - ((keycode as int * 2) % 256 + keycode as int / 128),
{
    let rotated = (keycode % 128) * 2 + keycode / 128;
    255 - rotated
}

/// The keycode the ROM's keyboard handler decodes from a serial data
/// register value: inverted, then rotated right by one bit.
pub open spec fn spec_decode_keyboard_sdr(sdr: u8) -> u8 {
    let n = 255 - sdr as int;
    (n / 2 + (n % 2) * 128) as u8
}

/// The ROM's keyboard handler decodes every translated keycode back to the
/// keycode itself.
pub proof fn law_keycode_translation_round_trip(keycode: u8)
    ensures
        spec_decode_keyboard_sdr(
            (255 - ((keycode as int * 2) % 256 + keycode as int / 128)) as u8,
        ) == keycode,
{
    let k = keycode as int;
    let h = k / 128;
    let l = k % 128;
    assert(k == 128 * h + l);
    assert((k * 2) % 256 == 2 * l) by (nonlinear_arith)
        requires
            k == 128 * h + l,
            0 <= l < 128,
            0 <= h <= 1,
    ;
}

/// Start a stopped CIA timer by setting its start bit; returns whether it
/// had been stopped.
pub fn force_start_cia_timer(control: &mut u8) -> (started: bool)
    ensures
        started == (old(control) % 2 == 0),
        *final(control) == (if *old(control) % 2 == 0 { *old(control) + 1 } else { *old(control) as int }),
{
    if *control % 2 != 0 {
        return false;
    }
    *control = *control + 1;
    true
}

} // verus!
