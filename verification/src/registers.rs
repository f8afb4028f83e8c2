//! Custom chip register writes from the CPU and the Copper: which chip state
//! each register changes, and what the machine around the chips must do next.

use vstd::prelude::*;
use crate::blitter::BlitterState;
use crate::chipset::CustomChipState;
use crate::copper::{CopperExecState, CopperState};
use crate::custom;
use crate::playfield::PlayfieldState;
use crate::sprites::{SpriteEngine, SpriteState};

verus! {

/// The custom chips a register write can reach directly.
#[derive(Clone, Debug)]
pub struct CustomChips {
    pub chipset: CustomChipState,
    pub copper: CopperState,
    pub playfield: PlayfieldState,
    pub sprites: SpriteEngine,
    pub blitter: BlitterState,
}

/// What a register write asks of the machine beyond the chips it changed.
#[derive(Clone, Copy, Debug, PartialEq, Eq, Structural)]
pub enum RegisterWriteEffect {
    /// Nothing more.
    Done,
    /// The interrupt registers changed; their read-back copies must follow.
    InterruptsChanged { intreq: u16, intena: u16 },
    /// `DSKLEN` was written: the floppy controller takes it with the current `ADKCON`.
    DiskLength(u16),
    /// `DSKSYNC` was written.
    DiskSync(u16),
    /// The high word of the disk DMA pointer was written.
    DiskPointerHigh(u16),
    /// The low word of the disk DMA pointer was written.
    DiskPointerLow(u16),
    /// A blit was started and must now run.
    StartBlit,
}

/// A pointer with its high word replaced.
pub open spec fn spec_with_high_word(ptr: u32, value: u16) -> u32 {
    (ptr % 0x1_0000 + value * 0x1_0000) as u32
}

/// A pointer with its low word replaced; bit 0 is forced clear (word aligned).
pub open spec fn spec_with_low_word(ptr: u32, value: u16) -> u32 {
    ((ptr / 0x1_0000) * 0x1_0000 + (value - value % 2)) as u32
}

/// A chip RAM pointer masked to the chip RAM size (a power of two).
pub open spec fn spec_chip_mask(ptr: u32, chip_ram_len: u32) -> u32 {
    ptr & (if chip_ram_len == 0 { 0xFFFF_FFFFu32 } else { (chip_ram_len - 1) as u32 })
}

/// A pointer with its high word replaced.
pub fn with_high_word(ptr: u32, value: u16) -> (r: u32)
    ensures
        r == spec_with_high_word(ptr, value),
{
    ptr % 0x1_0000 + value as u32 * 0x1_0000
}

/// A pointer with its low word replaced; bit 0 is forced clear.
pub fn with_low_word(ptr: u32, value: u16) -> (r: u32)
    ensures
        r == spec_with_low_word(ptr, value),
{
    (ptr / 0x1_0000) * 0x1_0000 + (value - value % 2) as u32
}

/// A chip RAM pointer masked to the chip RAM size.
fn chip_mask(ptr: u32, chip_ram_len: u32) -> (r: u32)
    ensures
        r == spec_chip_mask(ptr, chip_ram_len),
{
    ptr & chip_ram_len.wrapping_sub(1)
}

/// The AGA palette entry a colour register write sets: bank
/// `BPLCON3[15:13]` selects which 32 entries the register reaches. With
/// `BPLCON3` bit 9 (LOCT) set the write replaces the low nibble of each 8-bit
/// channel; otherwise each 4-bit channel is widened by repeating it.
pub open spec fn spec_aga_color(old_color: u32, value: u16, loct: bool) -> u32 {
    let r4 = (value / 256) % 16;
    let g4 = (value / 16) % 16;
    let b4 = value % 16;
    if loct {
        let r = ((old_color / 0x1_0000) % 256) / 16 * 16 + r4;
        let g = ((old_color / 256) % 256) / 16 * 16 + g4;
        let b = (old_color % 256) / 16 * 16 + b4;
        (r * 0x1_0000 + g * 256 + b) as u32
    } else {
        (r4 * 17 * 0x1_0000 + g4 * 17 * 256 + b4 * 17) as u32
    }
}

/// Palette entry a colour register at index `idx` reaches through `BPLCON3`.
pub open spec fn spec_color_slot(bplcon3: u16, idx: int) -> int {
    ((bplcon3 / 8192) % 8) * 32 + idx
}

/// Whether `offset` is a blitter register (the blitter must be idle before
/// it is written).
pub open spec fn spec_is_blitter_register(offset: u16) -> bool {
    custom::BLTCON0 <= offset <= custom::BLTADAT
}

/// Chips and effect after a blitter register write.
pub open spec fn spec_blitter_write(c: CustomChips, offset: u16, value: u16, chip_ram_len: u32) -> (CustomChips, RegisterWriteEffect) {
    let b = c.blitter;
    let done = RegisterWriteEffect::Done;
    if offset == custom::BLTCON0 {
        (CustomChips { blitter: BlitterState { bltcon0: value, ..b }, ..c }, done)
    } else if offset == custom::BLTCON0L {
        (CustomChips { blitter: BlitterState { bltcon0: ((b.bltcon0 / 256) * 256 + value % 256) as u16, ..b }, ..c }, done)
    } else if offset == custom::BLTCON1 {
        (CustomChips { blitter: BlitterState { bltcon1: value, ..b }, ..c }, done)
    } else if offset == custom::BLTAFWM {
        (CustomChips { blitter: BlitterState { bltafwm: value, ..b }, ..c }, done)
    } else if offset == custom::BLTALWM {
        (CustomChips { blitter: BlitterState { bltalwm: value, ..b }, ..c }, done)
    } else if offset == custom::BLTCPTH {
        (CustomChips { blitter: BlitterState { bltcpt: spec_chip_mask(spec_with_high_word(b.bltcpt, value), chip_ram_len), ..b }, ..c }, done)
    } else if offset == custom::BLTCPTL {
        (CustomChips { blitter: BlitterState { bltcpt: spec_chip_mask(spec_with_low_word(b.bltcpt, value), chip_ram_len), ..b }, ..c }, done)
    } else if offset == custom::BLTBPTH {
        (CustomChips { blitter: BlitterState { bltbpt: spec_chip_mask(spec_with_high_word(b.bltbpt, value), chip_ram_len), ..b }, ..c }, done)
    } else if offset == custom::BLTBPTL {
        (CustomChips { blitter: BlitterState { bltbpt: spec_chip_mask(spec_with_low_word(b.bltbpt, value), chip_ram_len), ..b }, ..c }, done)
    } else if offset == custom::BLTAPTH {
        (CustomChips { blitter: BlitterState { bltapt: spec_chip_mask(spec_with_high_word(b.bltapt, value), chip_ram_len), ..b }, ..c }, done)
    } else if offset == custom::BLTAPTL {
        (CustomChips { blitter: BlitterState { bltapt: spec_chip_mask(spec_with_low_word(b.bltapt, value), chip_ram_len), ..b }, ..c }, done)
    } else if offset == custom::BLTDPTH {
        (CustomChips { blitter: BlitterState { bltdpt: spec_chip_mask(spec_with_high_word(b.bltdpt, value), chip_ram_len), ..b }, ..c }, done)
    } else if offset == custom::BLTDPTL {
        (CustomChips { blitter: BlitterState { bltdpt: spec_chip_mask(spec_with_low_word(b.bltdpt, value), chip_ram_len), ..b }, ..c }, done)
    } else if offset == custom::BLTCMOD {
        (CustomChips { blitter: BlitterState { bltcmod: signed_word_value(value), ..b }, ..c }, done)
    } else if offset == custom::BLTBMOD {
        (CustomChips { blitter: BlitterState { bltbmod: signed_word_value(value), ..b }, ..c }, done)
    } else if offset == custom::BLTAMOD {
        (CustomChips { blitter: BlitterState { bltamod: signed_word_value(value), ..b }, ..c }, done)
    } else if offset == custom::BLTDMOD {
        (CustomChips { blitter: BlitterState { bltdmod: signed_word_value(value), ..b }, ..c }, done)
    } else if offset == custom::BLTCDAT {
        (CustomChips { blitter: BlitterState { bltcdat: value, ..b }, ..c }, done)
    } else if offset == custom::BLTBDAT {
        (CustomChips { blitter: b.spec_load_bdat(value), ..c }, done)
    } else if offset == custom::BLTADAT {
        (CustomChips { blitter: BlitterState { bltadat: value, ..b }, ..c }, done)
    } else if offset == custom::BLTSIZE {
        (CustomChips { blitter: b.spec_start_legacy(value), ..c }, RegisterWriteEffect::StartBlit)
    } else if offset == custom::BLTSIZV {
        (CustomChips { blitter: b.spec_set_vertical(value), ..c }, done)
    } else if offset == custom::BLTSIZH {
        (CustomChips { blitter: b.spec_start_horizontal(value), ..c }, RegisterWriteEffect::StartBlit)
    } else {
        (c, done)
    }
}

/// A register word read as a signed modulo.
pub open spec fn signed_word_value(value: u16) -> i16 {
    (if value >= 0x8000 { value - 0x1_0000 } else { value as int }) as i16
}

/// Chips and effect after a write of `value` to custom register `offset`.
pub open spec fn spec_register_write(c: CustomChips, offset: u16, value: u16, chip_ram_len: u32) -> (CustomChips, RegisterWriteEffect) {
    let p = c.playfield;
    let done = RegisterWriteEffect::Done;
    if offset == custom::BPLCON0 {
        (CustomChips { playfield: PlayfieldState { bplcon0: value, ..p }, ..c }, done)
    } else if offset == custom::BPLCON1 {
        (CustomChips { playfield: PlayfieldState { bplcon1: value, ..p }, ..c }, done)
    } else if offset == custom::BPLCON2 {
        (CustomChips { playfield: PlayfieldState { bplcon2: value, ..p }, ..c }, done)
    } else if offset == custom::BPLCON3 {
        (CustomChips { playfield: PlayfieldState { bplcon3: value, ..p }, ..c }, done)
    } else if offset == custom::BPLCON4 {
        (CustomChips { playfield: PlayfieldState { bplcon4: value, ..p }, ..c }, done)
    } else if offset == custom::FMODE {
        (CustomChips { playfield: PlayfieldState { fmode: value, ..p }, ..c }, done)
    } else if offset == custom::DIWSTRT {
        (CustomChips { playfield: PlayfieldState { diwstrt: value, ..p }, ..c }, done)
    } else if offset == custom::DIWSTOP {
        (CustomChips { playfield: PlayfieldState { diwstop: value, ..p }, ..c }, done)
    } else if offset == custom::DIWHIGH {
        (CustomChips { playfield: PlayfieldState { diwhigh: value, ..p }, ..c }, done)
    } else if offset == custom::DDFSTRT {
        (CustomChips { playfield: PlayfieldState { ddfstrt: value, ..p }, ..c }, done)
    } else if offset == custom::DDFSTOP {
        (CustomChips { playfield: PlayfieldState { ddfstop: value, ..p }, ..c }, done)
    } else if offset == custom::DMACON {
        let chipset = c.chipset.spec_write_register(offset, value);
        (
            CustomChips {
                chipset,
                copper: CopperState { enabled: chipset.dmacon & 0x0200 != 0 && chipset.dmacon & custom::DMA_COPPER != 0, ..c.copper },
                ..c
            },
            done,
        )
    } else if offset == custom::INTENA || offset == custom::INTREQ {
        let chipset = c.chipset.spec_write_register(offset, value);
        (CustomChips { chipset, ..c }, RegisterWriteEffect::InterruptsChanged { intreq: chipset.intreq, intena: chipset.intena })
    } else if offset == custom::COP1LCH {
        (CustomChips { copper: CopperState { cop1lc: spec_chip_mask(spec_with_high_word(c.copper.cop1lc, value), chip_ram_len), ..c.copper }, ..c }, done)
    } else if offset == custom::COP1LCL {
        (CustomChips { copper: CopperState { cop1lc: spec_chip_mask(spec_with_low_word(c.copper.cop1lc, value), chip_ram_len), ..c.copper }, ..c }, done)
    } else if offset == custom::COP2LCH {
        (CustomChips { copper: CopperState { cop2lc: spec_chip_mask(spec_with_high_word(c.copper.cop2lc, value), chip_ram_len), ..c.copper }, ..c }, done)
    } else if offset == custom::COP2LCL {
        (CustomChips { copper: CopperState { cop2lc: spec_chip_mask(spec_with_low_word(c.copper.cop2lc, value), chip_ram_len), ..c.copper }, ..c }, done)
    } else if offset == custom::COPJMP1 {
        (CustomChips { copper: CopperState { pc: c.copper.cop1lc, state: CopperExecState::FetchFirst, ..c.copper }, ..c }, done)
    } else if offset == custom::COPJMP2 {
        (CustomChips { copper: CopperState { pc: c.copper.cop2lc, state: CopperExecState::FetchFirst, ..c.copper }, ..c }, done)
    } else if offset == custom::DSKLEN {
        (c, RegisterWriteEffect::DiskLength(value))
    } else if offset == custom::DSKSYNC {
        (c, RegisterWriteEffect::DiskSync(value))
    } else if offset == custom::DSKPTH {
        (c, RegisterWriteEffect::DiskPointerHigh(value))
    } else if offset == custom::DSKPTL {
        (c, RegisterWriteEffect::DiskPointerLow(value))
    } else if custom::COLOR00 <= offset <= custom::COLOR31 {
        let idx = ((offset - custom::COLOR00) / 2) as int;
        let slot = spec_color_slot(p.bplcon3, idx);
        (
            CustomChips {
                chipset: c.chipset.spec_write_register(offset, value),
                playfield: PlayfieldState {
                    color: vstd::array::spec_array_update(p.color, idx, (value % 0x1000) as u16),
                    color_aga: vstd::array::spec_array_update(
                        p.color_aga,
                        slot,
                        spec_aga_color(p.color_aga@[slot], value, (p.bplcon3 / 512) % 2 == 1),
                    ),
                    ..p
                },
                ..c
            },
            done,
        )
    } else if custom::BPL1PTH <= offset <= custom::BPL6PTL {
        let reg_idx = ((offset - custom::BPL1PTH) / 2) as int;
        let plane = reg_idx / 2;
        let ptr = p.bplpt@[plane];
        let new_ptr = if reg_idx % 2 == 0 { spec_with_high_word(ptr, value) } else { spec_with_low_word(ptr, value) };
        (CustomChips { playfield: PlayfieldState { bplpt: vstd::array::spec_array_update(p.bplpt, plane, new_ptr), ..p }, ..c }, done)
    } else if custom::SPR0PTH <= offset <= custom::SPR7PTL {
        let reg_idx = ((offset - custom::SPR0PTH) / 2) as int;
        let n = reg_idx / 2;
        let s = c.sprites.sprites@[n];
        let sprite = if reg_idx % 2 == 0 {
            SpriteState { pt: spec_with_high_word(s.pt, value), ..s }
        } else {
            SpriteState { pt: spec_with_low_word(s.pt, value), armed: false, active: false, ..s }
        };
        (
            CustomChips {
                sprites: SpriteEngine { sprites: vstd::array::spec_array_update(c.sprites.sprites, n, sprite) },
                chipset: CustomChipState { dmacon: c.chipset.dmacon | custom::DMA_SPRITE, ..c.chipset },
                ..c
            },
            done,
        )
    } else if custom::SPR0POS <= offset <= custom::SPR7DATB {
        let reg_idx = ((offset - custom::SPR0POS) / 2) as int;
        let n = reg_idx / 4;
        let s = c.sprites.sprites@[n];
        let sprite = if reg_idx % 4 == 0 {
            SpriteState { pos: value, ..s }
        } else if reg_idx % 4 == 1 {
            SpriteState { ctl: value, ..s }
        } else if reg_idx % 4 == 2 {
            SpriteState { data_a: value, ..s }
        } else {
            SpriteState { data_b: value, ..s }
        };
        (CustomChips { sprites: SpriteEngine { sprites: vstd::array::spec_array_update(c.sprites.sprites, n, sprite) }, ..c }, done)
    } else if spec_is_blitter_register(offset) {
        spec_blitter_write(c, offset, value, chip_ram_len)
    } else {
        (c, done)
    }
}

/// Whether `offset` is a blitter register.
pub fn is_blitter_register(offset: u16) -> (r: bool)
    ensures
        r == spec_is_blitter_register(offset),
{
    custom::BLTCON0 <= offset && offset <= custom::BLTADAT
}

/// A register word as a signed modulo.
fn signed_word(value: u16) -> (r: i16)
    ensures
        r == signed_word_value(value),
{
    if value >= 0x8000 {
        (value as i32 - 0x1_0000) as i16
    } else {
        value as i16
    }
}

impl CustomChips {
    /// Apply a write of `value` to custom register `offset`. `chip_ram_len`
    /// is the chip RAM size, to which DMA pointers are masked. Blitter
    /// registers must only be written once any blit in flight has finished.
    pub fn dispatch_register_write(&mut self, offset: u16, value: u16, chip_ram_len: u32) -> (r: RegisterWriteEffect)
        ensures
            (*final(self), r) == spec_register_write(*old(self), offset, value, chip_ram_len),
    {
        if offset == custom::BPLCON0 {
            self.playfield.bplcon0 = value;
        } else if offset == custom::BPLCON1 {
            self.playfield.bplcon1 = value;
        } else if offset == custom::BPLCON2 {
            self.playfield.bplcon2 = value;
        } else if offset == custom::BPLCON3 {
            self.playfield.bplcon3 = value;
        } else if offset == custom::BPLCON4 {
            self.playfield.bplcon4 = value;
        } else if offset == custom::FMODE {
            self.playfield.fmode = value;
        } else if offset == custom::DIWSTRT {
            self.playfield.diwstrt = value;
        } else if offset == custom::DIWSTOP {
            self.playfield.diwstop = value;
        } else if offset == custom::DIWHIGH {
            self.playfield.diwhigh = value;
        } else if offset == custom::DDFSTRT {
            self.playfield.ddfstrt = value;
        } else if offset == custom::DDFSTOP {
            self.playfield.ddfstop = value;
        } else if offset == custom::DMACON {
            self.chipset.write_register(offset, value);
            self.copper.enabled = self.chipset.dmaen(custom::DMA_COPPER);
        } else if offset == custom::INTENA || offset == custom::INTREQ {
            self.chipset.write_register(offset, value);
            return RegisterWriteEffect::InterruptsChanged { intreq: self.chipset.intreq, intena: self.chipset.intena };
        } else if offset == custom::COP1LCH {
            self.copper.cop1lc = chip_mask(with_high_word(self.copper.cop1lc, value), chip_ram_len);
        } else if offset == custom::COP1LCL {
            self.copper.cop1lc = chip_mask(with_low_word(self.copper.cop1lc, value), chip_ram_len);
        } else if offset == custom::COP2LCH {
            self.copper.cop2lc = chip_mask(with_high_word(self.copper.cop2lc, value), chip_ram_len);
        } else if offset == custom::COP2LCL {
            self.copper.cop2lc = chip_mask(with_low_word(self.copper.cop2lc, value), chip_ram_len);
        } else if offset == custom::COPJMP1 {
            self.copper.strobe_cop1();
        } else if offset == custom::COPJMP2 {
            self.copper.strobe_cop2();
        } else if offset == custom::DSKLEN {
            return RegisterWriteEffect::DiskLength(value);
        } else if offset == custom::DSKSYNC {
            return RegisterWriteEffect::DiskSync(value);
        } else if offset == custom::DSKPTH {
            return RegisterWriteEffect::DiskPointerHigh(value);
        } else if offset == custom::DSKPTL {
            return RegisterWriteEffect::DiskPointerLow(value);
        } else if custom::COLOR00 <= offset && offset <= custom::COLOR31 {
            self.chipset.write_register(offset, value);
            let idx = ((offset - custom::COLOR00) / 2) as usize;
            self.playfield.color[idx] = value % 0x1000;
            let bank = ((self.playfield.bplcon3 / 8192) % 8) as usize;
            let slot = bank * 32 + idx;
            let loct = (self.playfield.bplcon3 / 512) % 2 == 1;
            let old_color = self.playfield.color_aga[slot];
            self.playfield.color_aga[slot] = aga_color(old_color, value, loct);
        } else if custom::BPL1PTH <= offset && offset <= custom::BPL6PTL {
            let reg_idx = ((offset - custom::BPL1PTH) / 2) as usize;
            let plane = reg_idx / 2;
            let ptr = self.playfield.bplpt[plane];
            self.playfield.bplpt[plane] = if reg_idx % 2 == 0 {
                with_high_word(ptr, value)
            } else {
                with_low_word(ptr, value)
            };
        } else if custom::SPR0PTH <= offset && offset <= custom::SPR7PTL {
            let reg_idx = ((offset - custom::SPR0PTH) / 2) as usize;
            let n = reg_idx / 2;
            let s = self.sprites.sprites[n];
            let sprite = if reg_idx % 2 == 0 {
                SpriteState { pt: with_high_word(s.pt, value), ..s }
            } else {
                SpriteState { pt: with_low_word(s.pt, value), armed: false, active: false, ..s }
            };
            self.sprites.sprites[n] = sprite;
            self.chipset.dmacon = self.chipset.dmacon | custom::DMA_SPRITE;
        } else if custom::SPR0POS <= offset && offset <= custom::SPR7DATB {
            let reg_idx = ((offset - custom::SPR0POS) / 2) as usize;
            let n = reg_idx / 4;
            let s = self.sprites.sprites[n];
            let sprite = if reg_idx % 4 == 0 {
                SpriteState { pos: value, ..s }
            } else if reg_idx % 4 == 1 {
                SpriteState { ctl: value, ..s }
            } else if reg_idx % 4 == 2 {
                SpriteState { data_a: value, ..s }
            } else {
                SpriteState { data_b: value, ..s }
            };
            self.sprites.sprites[n] = sprite;
        } else if custom::BLTCON0 <= offset && offset <= custom::BLTADAT {
            return self.dispatch_blitter_write(offset, value, chip_ram_len);
        }
        RegisterWriteEffect::Done
    }

    /// Apply a write to a blitter register.
    pub fn dispatch_blitter_write(&mut self, offset: u16, value: u16, chip_ram_len: u32) -> (r: RegisterWriteEffect)
        ensures
            (*final(self), r) == spec_blitter_write(*old(self), offset, value, chip_ram_len),
    {
        if offset == custom::BLTCON0 {
            self.blitter.bltcon0 = value;
        } else if offset == custom::BLTCON0L {
            self.blitter.bltcon0 = (self.blitter.bltcon0 / 256) * 256 + value % 256;
        } else if offset == custom::BLTCON1 {
            self.blitter.bltcon1 = value;
        } else if offset == custom::BLTAFWM {
            self.blitter.bltafwm = value;
        } else if offset == custom::BLTALWM {
            self.blitter.bltalwm = value;
        } else if offset == custom::BLTCPTH {
            self.blitter.bltcpt = chip_mask(with_high_word(self.blitter.bltcpt, value), chip_ram_len);
        } else if offset == custom::BLTCPTL {
            self.blitter.bltcpt = chip_mask(with_low_word(self.blitter.bltcpt, value), chip_ram_len);
        } else if offset == custom::BLTBPTH {
            self.blitter.bltbpt = chip_mask(with_high_word(self.blitter.bltbpt, value), chip_ram_len);
        } else if offset == custom::BLTBPTL {
            self.blitter.bltbpt = chip_mask(with_low_word(self.blitter.bltbpt, value), chip_ram_len);
        } else if offset == custom::BLTAPTH {
            self.blitter.bltapt = chip_mask(with_high_word(self.blitter.bltapt, value), chip_ram_len);
        } else if offset == custom::BLTAPTL {
            self.blitter.bltapt = chip_mask(with_low_word(self.blitter.bltapt, value), chip_ram_len);
        } else if offset == custom::BLTDPTH {
            self.blitter.bltdpt = chip_mask(with_high_word(self.blitter.bltdpt, value), chip_ram_len);
        } else if offset == custom::BLTDPTL {
            self.blitter.bltdpt = chip_mask(with_low_word(self.blitter.bltdpt, value), chip_ram_len);
        } else if offset == custom::BLTCMOD {
            self.blitter.bltcmod = signed_word(value);
        } else if offset == custom::BLTBMOD {
            self.blitter.bltbmod = signed_word(value);
        } else if offset == custom::BLTAMOD {
            self.blitter.bltamod = signed_word(value);
        } else if offset == custom::BLTDMOD {
            self.blitter.bltdmod = signed_word(value);
        } else if offset == custom::BLTCDAT {
            self.blitter.bltcdat = value;
        } else if offset == custom::BLTBDAT {
            self.blitter.load_bdat(value);
        } else if offset == custom::BLTADAT {
            self.blitter.bltadat = value;
        } else if offset == custom::BLTSIZE {
            self.blitter.start_legacy_size_blit(value);
            return RegisterWriteEffect::StartBlit;
        } else if offset == custom::BLTSIZV {
            self.blitter.set_vertical_size(value);
        } else if offset == custom::BLTSIZH {
            self.blitter.start_horizontal_size_blit(value);
            return RegisterWriteEffect::StartBlit;
        }
        RegisterWriteEffect::Done
    }
}

/// The AGA palette entry after a colour register write.
pub fn aga_color(old_color: u32, value: u16, loct: bool) -> (r: u32)
    ensures
        r == spec_aga_color(old_color, value, loct),
{
    let r4 = ((value / 256) % 16) as u32;
    let g4 = ((value / 16) % 16) as u32;
    let b4 = (value % 16) as u32;
    if loct {
        let r = ((old_color / 0x1_0000) % 256) / 16 * 16 + r4;
        let g = ((old_color / 256) % 256) / 16 * 16 + g4;
        let b = (old_color % 256) / 16 * 16 + b4;
        r * 0x1_0000 + g * 256 + b
    } else {
        r4 * 17 * 0x1_0000 + g4 * 17 * 256 + b4 * 17
    }
}

} // verus!
