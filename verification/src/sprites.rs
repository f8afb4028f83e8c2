//! Sprite DMA and rendering for the Amiga OCS chipset.

use vstd::prelude::*;

use crate::playfield::{amiga_to_rgb565, spec_amiga_to_rgb565, spec_word_at, word_at};

verus! {

/// Number of hardware sprites.
pub const NUM_SPRITES: usize = 8;

/// Width of each sprite in pixels.
pub const SPRITE_WIDTH: u32 = 16;

/// State of a single hardware sprite.
#[derive(Debug, Clone, Copy)]
pub struct SpriteState {
    /// Sprite data pointer (`SPRxPT`).
    pub pt: u32,
    /// `SPRxPOS` — vstart\[7:0\] in high byte, hstart\[8:1\] in low byte.
    pub pos: u16,
    /// `SPRxCTL` — vstop\[7:0\] in high byte; low byte holds hstart bit 0,
    /// vstop bit 8, vstart bit 8, and the attach flag.
    pub ctl: u16,
    /// `SPRxDATA` — bitplane A.
    pub data_a: u16,
    /// `SPRxDATB` — bitplane B.
    pub data_b: u16,
    /// Sprite is armed (waiting for vstart match).
    pub armed: bool,
    /// Sprite is currently displaying.
    pub active: bool,
    /// DMA is enabled for this sprite.
    pub dma_enabled: bool,
}

/// Vertical start: bit 8 from CTL bit 2, bits 7–0 from the POS high byte.
pub open spec fn spec_vstart(s: SpriteState) -> int {
    (if s.ctl & 4 != 0 { 256int } else { 0int }) + (s.pos / 256) as int
}

/// Vertical stop: bit 8 from CTL bit 1, bits 7–0 from the CTL high byte.
pub open spec fn spec_vstop(s: SpriteState) -> int {
    (if s.ctl & 2 != 0 { 256int } else { 0int }) + (s.ctl / 256) as int
}

/// Horizontal start: bits 8–1 from the POS low byte, bit 0 from CTL bit 0.
pub open spec fn spec_hstart(s: SpriteState) -> int {
    (s.pos % 256) as int * 2 + (s.ctl % 2) as int
}

/// Two-bit colour index of sprite pixel `bit` (0 = leftmost): plane B supplies
/// the high bit, plane A the low bit.
pub open spec fn spec_sprite_index(s: SpriteState, bit: int) -> int {
    let shift = 15 - bit;
    ((s.data_b as int / vstd::arithmetic::power2::pow2(shift as nat) as int) % 2) * 2
        + (s.data_a as int / vstd::arithmetic::power2::pow2(shift as nat) as int) % 2
}

impl SpriteState {
    /// Create a zeroed sprite state.
    pub fn new() -> (r: Self)
        ensures
            r.pt == 0 && r.pos == 0 && r.ctl == 0 && r.data_a == 0 && r.data_b == 0,
            !r.armed && !r.active && !r.dma_enabled,
    {
        Self { pt: 0, pos: 0, ctl: 0, data_a: 0, data_b: 0, armed: false, active: false, dma_enabled: false }
    }
}

impl Default for SpriteState {
    fn default() -> (r: Self)
        ensures
            r.pt == 0 && r.pos == 0 && r.ctl == 0 && r.data_a == 0 && r.data_b == 0,
            !r.armed && !r.active && !r.dma_enabled,
    {
        Self::new()
    }
}

/// Sprite rendering engine managing all 8 hardware sprites.
#[derive(Debug, Clone)]
pub struct SpriteEngine {
    /// Per-sprite state.
    pub sprites: [SpriteState; NUM_SPRITES],
}

/// A sprite after the scanline-start check at `vpos`: it starts displaying at
/// its vertical start and stops at its vertical stop; sprites without DMA are
/// left alone.
pub open spec fn spec_begin_line(s: SpriteState, vpos: u16) -> SpriteState {
    if !s.dma_enabled {
        s
    } else if vpos == spec_vstart(s) {
        SpriteState { armed: true, active: true, ..s }
    } else if vpos == spec_vstop(s) {
        SpriteState { armed: false, active: false, ..s }
    } else {
        s
    }
}

fn pixel_index(data_a: u16, data_b: u16, bit: u16) -> (r: u16)
    requires
        bit < 16,
    ensures
        r < 4,
        r == spec_sprite_index(SpriteState { data_a, data_b, ..SpriteState::new_spec() }, bit as int),
{
    let shift = 15 - bit;
    let a = (data_a >> shift) & 1;
    let b = (data_b >> shift) & 1;
    proof {
        vstd::bits::lemma_u16_shr_is_div(data_a, shift);
        vstd::bits::lemma_u16_shr_is_div(data_b, shift);
        let da = data_a >> shift;
        let db = data_b >> shift;
        assert(da & 1 == da % 2 && db & 1 == db % 2 && (a <= 1 && b <= 1 ==> (b << 1u16) | a == b * 2
            + a)) by (bit_vector);
    }
    (b << 1) | a
}

impl SpriteState {
    /// A zeroed sprite, as a specification value.
    pub open spec fn new_spec() -> SpriteState {
        SpriteState { pt: 0, pos: 0, ctl: 0, data_a: 0, data_b: 0, armed: false, active: false, dma_enabled: false }
    }
}

impl SpriteEngine {
    /// Create a new `SpriteEngine` with all sprites in their default state.
    pub fn new() -> (r: Self)
        ensures
            forall|i: int| 0 <= i < NUM_SPRITES ==> r.sprites@[i] == SpriteState::new_spec(),
    {
        Self { sprites: [SpriteState::new(); NUM_SPRITES] }
    }

    /// Extract vertical start position from pos/ctl registers.
    pub fn vstart(sprite: &SpriteState) -> (r: u16)
        ensures
            r == spec_vstart(*sprite),
    {
        let low = sprite.pos >> 8;
        let high: u16 = if sprite.ctl & 0x04 != 0 { 1 } else { 0 };
        let p = sprite.pos;
        assert(p >> 8u16 == p / 256 && (high <= 1 && low < 256 ==> ((high << 8u16) | low) == high * 256
            + low)) by (bit_vector);
        (high << 8) | low
    }

    /// Extract vertical stop position from ctl register.
    pub fn vstop(sprite: &SpriteState) -> (r: u16)
        ensures
            r == spec_vstop(*sprite),
    {
        let low = sprite.ctl >> 8;
        let high: u16 = if sprite.ctl & 0x02 != 0 { 1 } else { 0 };
        let c = sprite.ctl;
        assert(c >> 8u16 == c / 256 && (high <= 1 && low < 256 ==> ((high << 8u16) | low) == high * 256
            + low)) by (bit_vector);
        (high << 8) | low
    }

    /// Extract horizontal start position from pos/ctl registers.
    pub fn hstart(sprite: &SpriteState) -> (r: u16)
        ensures
            r == spec_hstart(*sprite),
    {
        let p = sprite.pos;
        let c = sprite.ctl;
        let high = (p & 0xFF) << 1;
        let low = c & 0x01;
        assert(((p & 0xFF) << 1u16) | (c & 1) == (p % 256) * 2 + c % 2) by (bit_vector);
        high | low
    }

    /// Process the start of a scanline: activate or deactivate sprites based on `vpos`.
    pub fn begin_scanline(&mut self, vpos: u16)
        ensures
            forall|i: int| 0 <= i < NUM_SPRITES ==> final(self).sprites@[i] == spec_begin_line(old(self).sprites@[i], vpos),
    {
        let mut i: usize = 0;
        while i < NUM_SPRITES
            invariant
                i <= NUM_SPRITES,
                forall|j: int| 0 <= j < i ==> self.sprites@[j] == spec_begin_line(old(self).sprites@[j], vpos),
                forall|j: int| i <= j < NUM_SPRITES ==> self.sprites@[j] == old(self).sprites@[j],
            decreases NUM_SPRITES - i,
        {
            let sprite = self.sprites[i];
            if sprite.dma_enabled {
                let vs = Self::vstart(&sprite);
                let ve = Self::vstop(&sprite);
                if vpos == vs {
                    self.sprites[i] = SpriteState { armed: true, active: true, ..sprite };
                } else if vpos == ve {
                    self.sprites[i] = SpriteState { armed: false, active: false, ..sprite };
                }
            }
            i += 1;
        }
    }

    /// Render a single sprite into the line buffer.
    ///
    /// `diw_hstart` converts sprite hardware coordinates to buffer positions.
    /// Sprite pair N (sprites 2N, 2N+1) uses palette colours `16 + N*4` to
    /// `16 + N*4 + 3`; colour index 0 is transparent.
    pub fn render_into_line(&self, line_buffer: &mut [u16], colors: &[u16; 32], sprite_idx: usize, diw_hstart: u16)
        ensures
            final(line_buffer)@.len() == old(line_buffer)@.len(),
            forall|px: int| 0 <= px < old(line_buffer)@.len() ==> #[trigger] final(line_buffer)@[px] == ({
                let s = self.sprites@[sprite_idx as int];
                let bit = px + diw_hstart - spec_hstart(s);
                if sprite_idx < NUM_SPRITES && s.active && 0 <= bit < 16 && spec_sprite_index(s, bit) != 0 {
                    spec_amiga_to_rgb565(colors@[16 + (sprite_idx / 2) * 4 + spec_sprite_index(s, bit)])
                } else {
                    old(line_buffer)@[px]
                }
            }),
    {
        if sprite_idx >= NUM_SPRITES {
            return;
        }
        let sprite = self.sprites[sprite_idx];
        if !sprite.active {
            return;
        }
        let hstart = Self::hstart(&sprite);
        let pair = sprite_idx / 2;
        let palette_base = 16 + pair * 4;
        let mut bit: u16 = 0;
        while bit < 16
            invariant
                bit <= 16,
                sprite == self.sprites@[sprite_idx as int],
                sprite_idx < NUM_SPRITES,
                sprite.active,
                hstart == spec_hstart(sprite),
                hstart <= 511,
                palette_base == 16 + (sprite_idx / 2) * 4,
                line_buffer@.len() == old(line_buffer)@.len(),
                forall|px: int| 0 <= px < line_buffer@.len() ==> #[trigger] line_buffer@[px] == ({
                    let b = px + diw_hstart - hstart;
                    if 0 <= b < bit && spec_sprite_index(sprite, b) != 0 {
                        spec_amiga_to_rgb565(colors@[palette_base + spec_sprite_index(sprite, b)])
                    } else {
                        old(line_buffer)@[px]
                    }
                }),
            decreases 16 - bit,
        {
            let idx = pixel_index(sprite.data_a, sprite.data_b, bit);
            let hpos = hstart + bit;
            if idx != 0 && hpos >= diw_hstart {
                let px = (hpos - diw_hstart) as usize;
                if px < line_buffer.len() {
                    line_buffer[px] = amiga_to_rgb565(colors[palette_base + idx as usize]);
                }
            }
            bit += 1;
        }
    }

    /// Fetch the next two words from chip RAM at the sprite pointer and advance
    /// it by 4. An inactive sprite loads them into POS/CTL, an active one into
    /// DATA/DATB.
    pub fn fetch_data(&mut self, sprite_idx: usize, chip_ram: &[u8])
        ensures
            sprite_idx >= NUM_SPRITES ==> final(self).sprites == old(self).sprites,
            sprite_idx < NUM_SPRITES ==> final(self).sprites@ == old(self).sprites@.update(sprite_idx as int, ({
                let s = old(self).sprites@[sprite_idx as int];
                let wa = spec_word_at(chip_ram@, s.pt as int);
                let wb = spec_word_at(chip_ram@, s.pt as int + 2);
                let pt = vstd::wrapping::u32_specs::wrapping_add(s.pt, 4);
                if s.active {
                    SpriteState { pt, data_a: wa, data_b: wb, ..s }
                } else {
                    SpriteState { pt, pos: wa, ctl: wb, ..s }
                }
            })),
    {
        if sprite_idx >= NUM_SPRITES {
            return;
        }
        let sprite = self.sprites[sprite_idx];
        let addr = sprite.pt as u64;
        let word_a = word_at(chip_ram, addr);
        let word_b = word_at(chip_ram, addr + 2);
        let pt = sprite.pt.wrapping_add(4);
        if sprite.active {
            self.sprites[sprite_idx] = SpriteState { pt, data_a: word_a, data_b: word_b, ..sprite };
        } else {
            self.sprites[sprite_idx] = SpriteState { pt, pos: word_a, ctl: word_b, ..sprite };
        }
    }
}

impl Default for SpriteEngine {
    fn default() -> (r: Self)
        ensures
            forall|i: int| 0 <= i < NUM_SPRITES ==> r.sprites@[i] == SpriteState::new_spec(),
    {
        Self::new()
    }
}

/// A sprite whose DMA is enabled is displaying on every line from its vertical
/// start to just before its vertical stop, when the scanline checks run in order.
pub proof fn law_sprite_visible_between_start_and_stop(s: SpriteState, vpos: u16)
    requires
        s.dma_enabled,
        spec_vstart(s) != spec_vstop(s),
    ensures
        vpos == spec_vstart(s) ==> spec_begin_line(s, vpos).active,
        vpos == spec_vstop(s) ==> !spec_begin_line(s, vpos).active,
        vpos != spec_vstart(s) && vpos != spec_vstop(s) ==> spec_begin_line(s, vpos).active == s.active,
{
}

} // verus!
