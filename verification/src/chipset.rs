//! Custom chip state and register read/write dispatcher.
//!
//! Implements the OCS custom chip register file with DMACON, INTENA/INTREQ
//! logic, and beam position tracking.

use vstd::prelude::*;

use crate::custom;
use crate::video::{VideoStandard, spec_scanlines};

verus! {

/// Number of color palette entries (OCS).
pub const PALETTE_SIZE: usize = 32;

/// Maximum horizontal position (color clocks per line, 0-indexed).
pub const HPOS_MAX: u16 = 226;

/// Value the `VPOSR` register reports for a standard and vertical beam position.
pub open spec fn spec_vposr(standard: VideoStandard, vpos: u16) -> u16 {
    0x8000u16 | (match standard {
        VideoStandard::Pal => 0u16,
        VideoStandard::Ntsc => 0x1000u16,
    }) | ((vpos >> 8u16) & 1u16)
}

/// The bits of INTREQ and INTENA that name interrupt sources: bit 14 is the
/// master enable and bit 15 the set/clear control.
pub const INT_SOURCES: u16 = 0x3FFF;

/// Highest pending interrupt level (1–6) for the pending-and-enabled mask, or
/// 0 when none of the fourteen interrupt sources (bits 0–13) is pending.
pub open spec fn spec_interrupt_level(pending: u16) -> u8 {
    if pending & INT_SOURCES == 0 {
        0
    } else if pending & custom::INT_EXTER != 0 {
        6
    } else if pending & (custom::INT_RBF | custom::INT_DSKSYN) != 0 {
        5
    } else if pending & (custom::INT_AUD0 | custom::INT_AUD1 | custom::INT_AUD2 | custom::INT_AUD3) != 0 {
        4
    } else if pending & (custom::INT_COPER | custom::INT_VERTB | custom::INT_BLIT) != 0 {
        3
    } else if pending & custom::INT_PORTS != 0 {
        2
    } else {
        1
    }
}

/// Set/clear register semantics: bit 15 set ORs the low 15 bits in, bit 15
/// clear clears them.
pub open spec fn spec_set_clear(reg: u16, value: u16) -> u16 {
    if value & 0x8000 != 0 {
        reg | (value & 0x7FFF)
    } else {
        reg & !(value & 0x7FFF)
    }
}

/// Whether an offset addresses one of the 32 colour registers.
pub open spec fn is_color_offset(offset: u16) -> bool {
    custom::COLOR00 <= offset <= custom::COLOR31
}

/// Palette index addressed by a colour register offset.
pub open spec fn color_index(offset: u16) -> int {
    ((offset - custom::COLOR00) / 2) as int
}

/// Custom chip register state.
#[derive(Clone, Debug)]
pub struct CustomChipState {
    /// DMA control register (active value, without set/clear bit).
    pub dmacon: u16,
    /// Interrupt enable register (active value, without set/clear bit).
    pub intena: u16,
    /// Interrupt request register (active value, without set/clear bit).
    pub intreq: u16,
    /// Vertical beam position (0–311 PAL, 0–261 NTSC).
    pub vpos: u16,
    /// Horizontal beam position (0–226 color clocks).
    pub hpos: u16,
    /// Color palette registers.
    pub color: [u16; PALETTE_SIZE],
    /// Video standard that fixes the beam geometry.
    pub video_standard: VideoStandard,
}

impl Default for CustomChipState {
    fn default() -> (r: Self)
        ensures
            r.standard() == VideoStandard::Pal,
            r.dmacon == 0 && r.intena == 0 && r.intreq == 0 && r.vpos == 0 && r.hpos == 0,
            forall|i: int| 0 <= i < PALETTE_SIZE ==> r.color@[i] == 0,
    {
        Self::new(VideoStandard::Pal)
    }
}

impl CustomChipState {
    /// The video standard this chip state was created for.
    pub open spec fn standard(&self) -> VideoStandard {
        self.video_standard
    }

    /// Value a read of `offset` returns.
    pub open spec fn spec_read_register(&self, offset: u16) -> u16 {
        if offset == custom::DMACONR {
            self.dmacon
        } else if offset == custom::VPOSR {
            spec_vposr(self.standard(), self.vpos)
        } else if offset == custom::VHPOSR {
            ((self.vpos << 8u16) | (self.hpos & 0xFF)) as u16
        } else if offset == custom::BEAMCON0 {
            match self.standard() {
                VideoStandard::Pal => custom::BEAMCON0_PAL,
                VideoStandard::Ntsc => 0u16,
            }
        } else if offset == custom::INTENAR {
            self.intena
        } else if offset == custom::INTREQR {
            self.intreq
        } else if is_color_offset(offset) {
            self.color@[color_index(offset)]
        } else {
            0
        }
    }

    /// State after a write of `value` to `offset`.
    pub open spec fn spec_write_register(self, offset: u16, value: u16) -> Self {
        if offset == custom::DMACON {
            CustomChipState { dmacon: spec_set_clear(self.dmacon, value), ..self }
        } else if offset == custom::INTENA {
            CustomChipState { intena: spec_set_clear(self.intena, value), ..self }
        } else if offset == custom::INTREQ {
            CustomChipState { intreq: spec_set_clear(self.intreq, value), ..self }
        } else if is_color_offset(offset) {
            CustomChipState {
                color: vstd::array::spec_array_update(self.color, color_index(offset), value & 0x0FFF),
                ..self
            }
        } else {
            self
        }
    }

    /// Create a new chip state with all registers zeroed.
    pub fn new(video_standard: VideoStandard) -> (r: Self)
        ensures
            r.standard() == video_standard,
            r.dmacon == 0 && r.intena == 0 && r.intreq == 0 && r.vpos == 0 && r.hpos == 0,
            forall|i: int| 0 <= i < PALETTE_SIZE ==> r.color@[i] == 0,
    {
        Self {
            dmacon: 0,
            intena: 0,
            intreq: 0,
            vpos: 0,
            hpos: 0,
            color: [0; PALETTE_SIZE],
            video_standard,
        }
    }

    /// Video standard that fixes the beam geometry.
    pub fn video_standard(&self) -> (r: VideoStandard)
        ensures
            r == self.standard(),
    {
        self.video_standard
    }

    /// Value the chipset reports in `VPOSR`: `LOF`, the standard bit, and bit 8
    /// of the vertical beam position.
    pub fn vposr(&self) -> (r: u16)
        ensures
            r == spec_vposr(self.standard(), self.vpos),
    {
        0x8000 | self.video_standard.vposr_standard_bits() | ((self.vpos >> 8) & 1)
    }

    /// Check if a DMA channel is enabled (master enable + channel bit).
    pub fn dmaen(&self, channel_mask: u16) -> (r: bool)
        ensures
            r == ((self.dmacon & channel_mask) != 0 && (self.dmacon & custom::DMA_MASTER) != 0),
    {
        (self.dmacon & channel_mask) != 0 && (self.dmacon & custom::DMA_MASTER) != 0
    }

    /// Compute the highest pending interrupt level (1–6), or 0 if none.
    pub fn interrupt_level(&self) -> (r: u8)
        ensures
            r == spec_interrupt_level(self.intreq & self.intena),
    {
        let pending = self.intreq & self.intena;
        if pending & INT_SOURCES == 0 {
            return 0;
        }
        if pending & custom::INT_EXTER != 0 {
            6
        } else if pending & (custom::INT_RBF | custom::INT_DSKSYN) != 0 {
            5
        } else if pending & (custom::INT_AUD0 | custom::INT_AUD1 | custom::INT_AUD2 | custom::INT_AUD3) != 0 {
            4
        } else if pending & (custom::INT_COPER | custom::INT_VERTB | custom::INT_BLIT) != 0 {
            3
        } else if pending & custom::INT_PORTS != 0 {
            2
        } else {
            1
        }
    }

    /// Advance beam position by one color clock. Returns true on vertical wrap.
    pub fn advance_beam(&mut self) -> (wrapped: bool)
        ensures
            final(self).standard() == old(self).standard(),
            final(self).dmacon == old(self).dmacon,
            final(self).intena == old(self).intena,
            final(self).intreq == old(self).intreq,
            final(self).color == old(self).color,
            old(self).hpos < HPOS_MAX ==> final(self).hpos == old(self).hpos + 1 && final(self).vpos == old(self).vpos && !wrapped,
            old(self).hpos >= HPOS_MAX ==> final(self).hpos == 0,
            old(self).hpos >= HPOS_MAX && old(self).vpos + 1 >= spec_scanlines(old(self).standard()) ==> final(self).vpos == 0 && wrapped,
            old(self).hpos >= HPOS_MAX && old(self).vpos + 1 < spec_scanlines(old(self).standard()) ==> final(self).vpos == old(self).vpos + 1 && !wrapped,
    {
        if self.hpos >= HPOS_MAX {
            self.hpos = 0;
            if self.vpos >= self.video_standard.last_line() {
                self.vpos = 0;
                return true;
            }
            self.vpos += 1;
        } else {
            self.hpos += 1;
        }
        false
    }

    /// Read a custom chip register by offset (0x000–0x1FE).
    pub fn read_register(&self, offset: u16) -> (r: u16)
        ensures
            r == self.spec_read_register(offset),
    {
        if offset == custom::DMACONR {
            self.dmacon
        } else if offset == custom::VPOSR {
            self.vposr()
        } else if offset == custom::VHPOSR {
            (self.vpos << 8) | (self.hpos & 0xFF)
        } else if offset == custom::BEAMCON0 {
            self.video_standard.beamcon0()
        } else if offset == custom::INTENAR {
            self.intena
        } else if offset == custom::INTREQR {
            self.intreq
        } else if custom::COLOR00 <= offset && offset <= custom::COLOR31 {
            let idx = ((offset - custom::COLOR00) / 2) as usize;
            self.color[idx]
        } else {
            0
        }
    }

    /// Write a custom chip register by offset (0x000–0x1FE).
    pub fn write_register(&mut self, offset: u16, value: u16)
        ensures
            *final(self) == old(self).spec_write_register(offset, value),
    {
        if offset == custom::DMACON {
            self.dmacon = apply_set_clear(self.dmacon, value);
        } else if offset == custom::INTENA {
            self.intena = apply_set_clear(self.intena, value);
        } else if offset == custom::INTREQ {
            self.intreq = apply_set_clear(self.intreq, value);
        } else if custom::COLOR00 <= offset && offset <= custom::COLOR31 {
            let idx = ((offset - custom::COLOR00) / 2) as usize;
            self.color[idx] = value & 0x0FFF;
        }
    }
}

/// Apply set/clear logic: bit 15 = set (OR), bit 15 clear = clear (AND NOT).
pub fn apply_set_clear(reg: u16, value: u16) -> (r: u16)
    ensures
        r == spec_set_clear(reg, value),
{
    let bits = value & 0x7FFF;
    if value & 0x8000 != 0 {
        reg | bits
    } else {
        reg & !bits
    }
}

/// A colour register reads back the 12-bit colour last written to it.
pub proof fn law_color_read_after_write(s: CustomChipState, offset: u16, value: u16)
    requires
        is_color_offset(offset),
    ensures
        s.spec_write_register(offset, value).spec_read_register(offset) == value & 0x0FFF,
{
}

/// Writing a mask with the set bit and then the same mask without it clears
/// those bits again; bits outside the mask are untouched by both writes.
pub proof fn law_set_then_clear(reg: u16, mask: u16)
    ensures
        spec_set_clear(spec_set_clear(reg, 0x8000u16 | mask), mask & 0x7FFF) & (mask & 0x7FFF) == 0,
        spec_set_clear(spec_set_clear(reg, 0x8000u16 | mask), mask & 0x7FFF) & !(mask & 0x7FFF)
            == reg & !(mask & 0x7FFF),
        spec_set_clear(reg, 0x8000u16 | mask) & (mask & 0x7FFF) == mask & 0x7FFF,
{
    assert(((reg | ((0x8000u16 | mask) & 0x7FFF)) & !((mask & 0x7FFF) & 0x7FFF)) & (mask & 0x7FFF) == 0
        && ((reg | ((0x8000u16 | mask) & 0x7FFF)) & !((mask & 0x7FFF) & 0x7FFF)) & !(mask & 0x7FFF)
        == reg & !(mask & 0x7FFF) && (reg | ((0x8000u16 | mask) & 0x7FFF)) & (mask & 0x7FFF) == mask
        & 0x7FFF && (0x8000u16 | mask) & 0x8000 != 0 && (mask & 0x7FFF) & 0x8000 == 0) by (bit_vector);
}

/// An interrupt is reported exactly when some enabled interrupt source is
/// requested, and `EXTER` always wins.
pub proof fn law_interrupt_level(pending: u16)
    ensures
        (spec_interrupt_level(pending) == 0) <==> pending & INT_SOURCES == 0,
        1 <= spec_interrupt_level(pending) <= 6 || pending & INT_SOURCES == 0,
        pending & custom::INT_EXTER != 0 ==> spec_interrupt_level(pending) == 6,
{
    assert(pending & 0x2000u16 != 0 ==> pending & 0x3FFFu16 != 0) by (bit_vector);
}

} // verus!
