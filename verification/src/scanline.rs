//! The chip work of one scanline, in the order the machine does it: the beam
//! moves to the next line, the copper runs across it and its register writes
//! are stored and dispatched, the playfield takes its registers, the line is
//! rendered when it falls in the display window and the bitplane pointers
//! take their modulos and the sprites run their DMA over it, the CIAs are
//! clocked, and the vertical blank is raised on line 0. The floppy, the
//! keyboard and the frame housekeeping follow it in [`crate::machine`].

use vstd::prelude::*;
use crate::chipset::CustomChipState;
use crate::cia::{tod_value, CiaPair, CiaState};
use crate::copper::CopperState;
use crate::custom::{DMA_BITPLANE, DMA_MASTER, DMA_SPRITE, INTREQR, INT_VERTB};
use crate::emulator::{
    apply_bitplane_modulos, framebuffer_line, run_copper_line, spec_add_modulo, spec_copper_line, spec_copper_upto,
    spec_framebuffer_line, spec_tick_cia_line, sync_playfield_registers, tick_cia_line,
};
use crate::playfield::{
    spec_amiga_to_rgb565, spec_display_window, spec_num_planes, spec_render_scanline, spec_word_at, PlayfieldState,
    DISPLAY_LEFT_HPOS, MAX_PLANES,
};
use crate::sprites::{spec_hstart, spec_sprite_index, spec_vstart, spec_vstop, SpriteEngine, SpriteState, NUM_SPRITES};
use crate::registers::{spec_register_write, CustomChips, RegisterWriteEffect};

verus! {

/// The last beam line of a frame.
pub const LAST_LINE: u16 = 311;

/// The beam line after `vpos`: line 0 follows the last line.
pub open spec fn spec_next_line(vpos: u16) -> u16 {
    if vpos >= LAST_LINE {
        0
    } else {
        (vpos + 1) as u16
    }
}

/// The copper's register writes applied in order: each is stored in the
/// custom register shadow and dispatched to the chips; the effects left for
/// the machine are collected in order.
pub open spec fn spec_apply_writes(c: CustomChips, regs: Seq<u16>, writes: Seq<(u16, u16)>, chip_ram_len: u32) -> (
    CustomChips,
    Seq<u16>,
    Seq<RegisterWriteEffect>,
)
    decreases writes.len(),
{
    if writes.len() == 0 {
        (c, regs, Seq::empty())
    } else {
        let prev = spec_apply_writes(c, regs, writes.drop_last(), chip_ram_len);
        let (offset, value) = writes.last();
        let (c2, e) = spec_register_write(prev.0, offset, value, chip_ram_len);
        (c2, prev.1.update((offset / 2) as int, value), prev.2.push(e))
    }
}

/// `new` is the playfield `old` after taking its registers from the shadow
/// `regs`: BPLCON0–2, the display window and data fetch registers, and the 32
/// colours (12 bits each).
pub open spec fn spec_playfield_synced(old: PlayfieldState, regs: Seq<u16>, new: PlayfieldState) -> bool {
    &&& new == (PlayfieldState {
        bplcon0: regs[0x80],
        bplcon1: regs[0x81],
        bplcon2: regs[0x82],
        diwstrt: regs[0x47],
        diwstop: regs[0x48],
        diwhigh: regs[0xF2],
        ddfstrt: regs[0x49],
        ddfstop: regs[0x4A],
        color: new.color,
        ..old
    })
    &&& forall|i: int| 0 <= i < 32 ==> #[trigger] new.color@[i] == regs[0xC0 + i] & 0x0FFF
}

/// Whether bitplane DMA is on.
pub open spec fn spec_bitplane_dma(c: CustomChipState) -> bool {
    c.dmacon & DMA_BITPLANE != 0 && c.dmacon & DMA_MASTER != 0
}

/// Whether sprite DMA is on.
pub open spec fn spec_sprite_dma(c: CustomChipState) -> bool {
    c.dmacon & DMA_SPRITE != 0 && c.dmacon & DMA_MASTER != 0
}

/// A sprite after one DMA fetch from chip RAM: two words at its pointer,
/// image data when it is displaying, else its POS and CTL; the pointer moves
/// past them.
pub open spec fn spec_sprite_fetch(s: SpriteState, ram: Seq<u8>) -> SpriteState {
    let wa = spec_word_at(ram, s.pt as int);
    let wb = spec_word_at(ram, s.pt as int + 2);
    let pt = vstd::wrapping::u32_specs::wrapping_add(s.pt, 4);
    if s.active {
        SpriteState { pt, data_a: wa, data_b: wb, ..s }
    } else {
        SpriteState { pt, pos: wa, ctl: wb, ..s }
    }
}

/// The sprite a displayed line `vpos` draws, if any: a displaying sprite
/// draws the image it fetches; an armed sprite whose vertical start is this
/// line starts displaying and draws its first fetched image.
pub open spec fn spec_sprite_shown(s: SpriteState, ram: Seq<u8>, vpos: u16) -> Option<SpriteState> {
    if s.active {
        Some(spec_sprite_fetch(s, ram))
    } else if s.armed && vpos == spec_vstart(s) {
        Some(spec_sprite_fetch(SpriteState { active: true, ..s }, ram))
    } else {
        None
    }
}

/// A sprite after the sprite DMA of displayed line `vpos`: a displaying
/// sprite fetches its image and stops (disarmed) on the line before its
/// vertical stop; a sprite not armed fetches POS and CTL and is armed; an
/// armed sprite starts displaying at its vertical start.
pub open spec fn spec_sprite_after(s: SpriteState, ram: Seq<u8>, vpos: u16) -> SpriteState {
    if s.active {
        let f = spec_sprite_fetch(s, ram);
        if vpos + 1 == spec_vstop(f) {
            SpriteState { active: false, armed: false, ..f }
        } else {
            f
        }
    } else if !s.armed {
        SpriteState { armed: true, ..spec_sprite_fetch(s, ram) }
    } else if vpos == spec_vstart(s) {
        spec_sprite_fetch(SpriteState { active: true, ..s }, ram)
    } else {
        s
    }
}

/// The line buffer with sprite `s` (number `idx`) drawn over it: each of
/// its 16 pixels from its horizontal start (relative to `hstart`) with a
/// non-zero colour index takes the sprite pair's colour.
pub open spec fn spec_sprite_drawn(buf: Seq<u16>, s: SpriteState, idx: int, colors: Seq<u16>, hstart: u16) -> Seq<u16> {
    Seq::new(
        buf.len(),
        |px: int|
            {
                let bit = px + hstart - spec_hstart(s);
                if idx < NUM_SPRITES && s.active && 0 <= bit < 16 && spec_sprite_index(s, bit) != 0 {
                    spec_amiga_to_rgb565(colors[16 + (idx / 2) * 4 + spec_sprite_index(s, bit)])
                } else {
                    buf[px]
                }
            },
    )
}

/// The sprites and line buffer after the sprite DMA of displayed line
/// `vpos` for sprites 0 to `n - 1`, in order.
pub open spec fn spec_sprites_upto(sp: Seq<SpriteState>, buf: Seq<u16>, ram: Seq<u8>, vpos: u16, colors: Seq<u16>, n: int) -> (
    Seq<SpriteState>,
    Seq<u16>,
)
    decreases n,
{
    if n <= 0 {
        (sp, buf)
    } else {
        let prev = spec_sprites_upto(sp, buf, ram, vpos, colors, n - 1);
        let s = prev.0[n - 1];
        let drawn = match spec_sprite_shown(s, ram, vpos) {
            Some(f) => spec_sprite_drawn(prev.1, f, n - 1, colors, DISPLAY_LEFT_HPOS),
            None => prev.1,
        };
        (prev.0.update(n - 1, spec_sprite_after(s, ram, vpos)), drawn)
    }
}

/// `new` is the playfield `old` with the bitplane modulos added to the
/// pointers of its displayed planes (at most six): BPL1MOD to the odd planes
/// (index 0, 2, 4), BPL2MOD to the even ones.
pub open spec fn spec_modulos_added(old: PlayfieldState, bpl1mod: u16, bpl2mod: u16, new: PlayfieldState) -> bool {
    let n = spec_num_planes(old.bplcon0);
    &&& new == (PlayfieldState { bplpt: new.bplpt, ..old })
    &&& forall|i: int|
        0 <= i < MAX_PLANES ==> #[trigger] new.bplpt@[i] == (if i < n && i < 6 {
            spec_add_modulo(old.bplpt@[i], if i % 2 == 0 { bpl1mod } else { bpl2mod })
        } else {
            old.bplpt@[i]
        })
}

/// The playfield, sprites and line buffer after the display part of line
/// `vpos`, from the playfield `pf` that took its registers: outside the
/// display window nothing changes; inside it the line is rendered (with no
/// planes when bitplane DMA is off, BPLCON0 itself kept), the sprites run
/// their DMA and draw over it when sprite DMA is on, and when bitplane DMA
/// is on and the line lies between the window's top and bottom the pointers
/// take the modulos.
#[verifier::opaque]
pub open spec fn spec_display_step(
    pf: PlayfieldState,
    sp: Seq<SpriteState>,
    chipset: CustomChipState,
    regs: Seq<u16>,
    vpos: u16,
    ram: Seq<u8>,
    buf: Seq<u16>,
    new_pf: PlayfieldState,
    new_sp: Seq<SpriteState>,
    new_buf: Seq<u16>,
) -> bool {
    let (_, _, vstart, vstop) = spec_display_window(pf.diwstrt, pf.diwstop, pf.diwhigh);
    let dma = spec_bitplane_dma(chipset);
    if spec_framebuffer_line(vpos, vstart) is None {
        new_pf == pf && new_buf == buf && new_sp == sp
    } else {
        let shown = if dma { pf } else { PlayfieldState { bplcon0: 0, ..pf } };
        let (rendered, line) = spec_render_scanline(shown, vpos, ram, buf);
        let restored = PlayfieldState { bplcon0: pf.bplcon0, ..rendered };
        let (sp2, buf2) = if spec_sprite_dma(chipset) {
            spec_sprites_upto(sp, line, ram, vpos, restored.color@, NUM_SPRITES as int)
        } else {
            (sp, line)
        };
        &&& new_buf == buf2
        &&& new_sp == sp2
        &&& if dma && vstart <= vpos < vstop {
            spec_modulos_added(restored, regs[0x84], regs[0x85], new_pf)
        } else {
            new_pf == restored
        }
    }
}

/// What one scanline's chip work does to the chips `c0`, the custom register
/// shadow `regs0`, the CIAs `cia0` and the line buffer `buf0`, given chip RAM
/// `ram`: the beam moves to the start of the next line; the copper runs
/// across it and its writes are applied in order (`effects` are what they
/// leave for the machine); the playfield takes its registers and the display
/// step, sprites included, runs (`fb` is the framebuffer line filled, if
/// any); the CIAs are
/// clocked for the line, their interrupts are raised and CIA-B's TOD counts
/// the line; on line 0 the vertical blank interrupt is raised; INTREQR reads
/// back the interrupt requests.
pub open spec fn spec_chip_line(
    c0: CustomChips,
    regs0: Seq<u16>,
    cia0: CiaPair,
    ram: Seq<u8>,
    buf0: Seq<u16>,
    c: CustomChips,
    regs: Seq<u16>,
    cia: CiaPair,
    buf: Seq<u16>,
    fb: Option<u16>,
    effects: Seq<RegisterWriteEffect>,
) -> bool {
    let vpos = spec_next_line(c0.chipset.vpos);
    let c1 = CustomChips { chipset: CustomChipState { hpos: 0, vpos: vpos, ..c0.chipset }, ..c0 };
    let (cop, writes) = spec_copper_line(c1.copper, ram, vpos);
    let (c2, regs2, eff) = spec_apply_writes(CustomChips { copper: cop, ..c1 }, regs0, writes, ram.len() as u32);
    let (cia1, raised) = spec_tick_cia_line(cia0);
    let intreq = c2.chipset.intreq | raised | (if vpos == 0 { INT_VERTB } else { 0u16 });
    &&& effects == eff
    &&& exists|pf3: PlayfieldState, pf4: PlayfieldState, sp4: SpriteEngine|
        #![trigger spec_playfield_synced(c2.playfield, regs2, pf3), spec_display_step(pf3, c2.sprites.sprites@, c2.chipset, regs2, vpos, ram, buf0, pf4, sp4.sprites@, buf)]
        spec_playfield_synced(c2.playfield, regs2, pf3) && spec_display_step(
            pf3,
            c2.sprites.sprites@,
            c2.chipset,
            regs2,
            vpos,
            ram,
            buf0,
            pf4,
            sp4.sprites@,
            buf,
        ) && c == (CustomChips {
            chipset: CustomChipState { intreq: intreq, ..c2.chipset },
            playfield: pf4,
            sprites: sp4,
            ..c2
        })
            && fb == spec_framebuffer_line(vpos, spec_display_window(pf3.diwstrt, pf3.diwstop, pf3.diwhigh).2)
    &&& cia == (CiaPair { cia_b: cia.cia_b, ..cia1 })
    &&& cia.cia_b == (CiaState { tod: cia.cia_b.tod, ..cia1.cia_b })
    &&& tod_value(cia.cia_b.tod) == (tod_value(cia1.cia_b.tod) + 1) % 0x100_0000
    &&& regs == regs2.update((INTREQR / 2) as int, intreq)
}

/// The copper writes registers of the custom block only: offsets up to
/// `$1FE`.
proof fn lemma_copper_write_offsets(c: CopperState, ram: Seq<u8>, vpos: u16, h: nat)
    ensures
        forall|i: int|
            0 <= i < spec_copper_upto(c, ram, vpos, h).1.len() ==> #[trigger] spec_copper_upto(c, ram, vpos, h).1[i].0
                <= 0x1FE,
    decreases h,
{
    if h > 0 {
        lemma_copper_write_offsets(c, ram, vpos, (h - 1) as nat);
        let (c1, w1) = spec_copper_upto(c, ram, vpos, (h - 1) as nat);
        let x = c1.ir1;
        assert(x & 0x01FE <= 0x1FE) by (bit_vector);
        let w = spec_copper_upto(c, ram, vpos, h).1;
        assert forall|i: int| 0 <= i < w.len() implies #[trigger] w[i].0 <= 0x1FE by {
            if i < w1.len() {
                assert(w[i] == w1[i]);
            }
        }
    }
}

/// Apply the copper's register writes in order: store each in the register
/// shadow and dispatch it to the chips; returns the effects left for the
/// machine, in order.
fn apply_copper_writes(
    chips: &mut CustomChips,
    regs: &mut [u16; 256],
    writes: &Vec<(u16, u16)>,
    chip_ram_len: u32,
) -> (effects: Vec<RegisterWriteEffect>)
    requires
        forall|i: int| 0 <= i < writes@.len() ==> #[trigger] writes@[i].0 <= 0x1FE,
    ensures
        (*final(chips), final(regs)@, effects@) == spec_apply_writes(*old(chips), old(regs)@, writes@, chip_ram_len),
{
    let mut effects: Vec<RegisterWriteEffect> = Vec::new();
    let mut i: usize = 0;
    while i < writes.len()
        invariant
            i <= writes@.len(),
            forall|k: int| 0 <= k < writes@.len() ==> #[trigger] writes@[k].0 <= 0x1FE,
            (*chips, regs@, effects@) == spec_apply_writes(*old(chips), old(regs)@, writes@.take(i as int), chip_ram_len),
        decreases writes@.len() - i,
    {
        let (offset, value) = writes[i];
        proof {
            assert(writes@.take(i as int + 1).drop_last() =~= writes@.take(i as int));
            assert(writes@.take(i as int + 1).last() == writes@[i as int]);
        }
        regs[(offset / 2) as usize] = value;
        let e = chips.dispatch_register_write(offset, value, chip_ram_len);
        effects.push(e);
        i += 1;
    }
    proof {
        assert(writes@.take(i as int) =~= writes@);
    }
    effects
}

/// The sprite DMA of displayed line `vpos` (see [`spec_sprites_upto`]):
/// each sprite in turn fetches, arms, starts or stops, and draws over the
/// line with the colours `colors`.
fn sprite_line_dma(sprites: &mut SpriteEngine, chip_ram: &[u8], line_buffer: &mut [u16], colors: &[u16; 32], vpos: u16)
    ensures
        (final(sprites).sprites@, final(line_buffer)@) == spec_sprites_upto(
            old(sprites).sprites@,
            old(line_buffer)@,
            chip_ram@,
            vpos,
            colors@,
            NUM_SPRITES as int,
        ),
{
    let ghost sp0 = sprites.sprites@;
    let ghost b0 = line_buffer@;
    let mut i: usize = 0;
    while i < NUM_SPRITES
        invariant
            i <= NUM_SPRITES,
            (sprites.sprites@, line_buffer@) == spec_sprites_upto(sp0, b0, chip_ram@, vpos, colors@, i as int),
        decreases NUM_SPRITES - i,
    {
        let s = sprites.sprites[i];
        let ghost prev_buf = line_buffer@;
        if s.active {
            sprites.fetch_data(i, chip_ram);
            sprites.render_into_line(line_buffer, colors, i, DISPLAY_LEFT_HPOS);
            let f = sprites.sprites[i];
            proof {
                assert(f == spec_sprite_fetch(s, chip_ram@));
                assert(line_buffer@ =~= spec_sprite_drawn(prev_buf, f, i as int, colors@, DISPLAY_LEFT_HPOS));
            }
            if (vpos as u32) + 1 == SpriteEngine::vstop(&f) as u32 {
                let mut t = f;
                t.active = false;
                t.armed = false;
                sprites.sprites[i] = t;
            }
        } else if !s.armed {
            sprites.fetch_data(i, chip_ram);
            let mut t = sprites.sprites[i];
            t.armed = true;
            sprites.sprites[i] = t;
        } else if vpos == SpriteEngine::vstart(&s) {
            let mut t = s;
            t.active = true;
            sprites.sprites[i] = t;
            sprites.fetch_data(i, chip_ram);
            sprites.render_into_line(line_buffer, colors, i, DISPLAY_LEFT_HPOS);
            proof {
                let f = sprites.sprites@[i as int];
                assert(line_buffer@ =~= spec_sprite_drawn(prev_buf, f, i as int, colors@, DISPLAY_LEFT_HPOS));
            }
        }
        proof {
            assert(sprites.sprites@ =~= spec_sprites_upto(sp0, b0, chip_ram@, vpos, colors@, i as int + 1).0);
        }
        i += 1;
    }
}

/// The display part of line `vpos` (see [`spec_display_step`]); returns the
/// framebuffer line filled, if any.
fn display_step(
    pf: &mut PlayfieldState,
    sprites: &mut SpriteEngine,
    chipset: &CustomChipState,
    regs: &[u16; 256],
    vpos: u16,
    chip_ram: &[u8],
    line_buffer: &mut [u16],
) -> (fb: Option<u16>)
    requires
        chip_ram@.len() > 0,
    ensures
        spec_display_step(
            *old(pf),
            old(sprites).sprites@,
            *chipset,
            regs@,
            vpos,
            chip_ram@,
            old(line_buffer)@,
            *final(pf),
            final(sprites).sprites@,
            final(line_buffer)@,
        ),
        fb == spec_framebuffer_line(vpos, spec_display_window(old(pf).diwstrt, old(pf).diwstop, old(pf).diwhigh).2),
{
    reveal(spec_display_step);
    let (_, _, vstart, vstop) = pf.display_window();
    let fb = framebuffer_line(vpos, vstart);
    if fb.is_some() {
        let dma = chipset.dmaen(DMA_BITPLANE);
        let saved = pf.bplcon0;
        if !dma {
            pf.bplcon0 = 0;
        }
        pf.render_scanline(vpos, chip_ram, line_buffer);
        pf.bplcon0 = saved;
        if chipset.dmaen(DMA_SPRITE) {
            let colors = pf.color;
            sprite_line_dma(sprites, chip_ram, line_buffer, &colors, vpos);
        }
        if dma && vpos >= vstart && vpos < vstop {
            let n = pf.num_planes();
            let ghost restored = *pf;
            apply_bitplane_modulos(&mut pf.bplpt, n, regs[0x108 / 2], regs[0x10A / 2]);
            proof {
                assert(spec_modulos_added(restored, regs@[0x84], regs@[0x85], *pf));
            }
        }
    }
    fb
}

/// Run the chip work of one scanline (see [`spec_chip_line`]): returns the
/// framebuffer line that `line_buffer` now holds, if the line is displayed,
/// and the effects of the copper's register writes that the machine must
/// still carry out, in order.
#[verifier::rlimit(40)]
#[verifier::spinoff_prover]
pub fn run_chip_line(
    chips: &mut CustomChips,
    regs: &mut [u16; 256],
    cia: &mut CiaPair,
    chip_ram: &[u8],
    line_buffer: &mut [u16],
) -> (r: (Option<u16>, Vec<RegisterWriteEffect>))
    requires
        0 < chip_ram@.len() <= u32::MAX,
    ensures
        spec_chip_line(
            *old(chips),
            old(regs)@,
            *old(cia),
            chip_ram@,
            old(line_buffer)@,
            *final(chips),
            final(regs)@,
            *final(cia),
            final(line_buffer)@,
            r.0,
            r.1@,
        ),
{
    let ghost c0 = *chips;
    let ghost regs0 = regs@;
    let ghost buf0 = line_buffer@;
    chips.chipset.hpos = 0;
    if chips.chipset.vpos >= LAST_LINE {
        chips.chipset.vpos = 0;
    } else {
        chips.chipset.vpos = chips.chipset.vpos + 1;
    }
    let vpos = chips.chipset.vpos;
    let ghost c1 = *chips;
    let writes = run_copper_line(&mut chips.copper, chip_ram, vpos);
    proof {
        if c1.copper.enabled {
            lemma_copper_write_offsets(c1.copper, chip_ram@, vpos, 227);
        }
    }
    let effects = apply_copper_writes(chips, regs, &writes, chip_ram.len() as u32);
    let ghost c2 = *chips;
    let ghost regs2 = regs@;
    sync_playfield_registers(&mut chips.playfield, regs);
    let ghost pf3 = chips.playfield;
    let fb = display_step(&mut chips.playfield, &mut chips.sprites, &chips.chipset, regs, vpos, chip_ram, line_buffer);
    let ghost pf4 = chips.playfield;
    let ghost sp4 = chips.sprites;
    let ghost cia0 = *cia;
    let raised = tick_cia_line(cia);
    let ghost cia1 = *cia;
    cia.cia_b.tick_tod();
    let vertb: u16 = if vpos == 0 { INT_VERTB } else { 0 };
    chips.chipset.intreq = chips.chipset.intreq | raised | vertb;
    regs[(INTREQR / 2) as usize] = chips.chipset.intreq;
    proof {
        assert(spec_playfield_synced(c2.playfield, regs2, pf3));
        assert(spec_display_step(pf3, c2.sprites.sprites@, c2.chipset, regs2, vpos, chip_ram@, buf0, pf4, sp4.sprites@, line_buffer@));
        assert((cia1, raised) == spec_tick_cia_line(cia0));
        assert(*chips == (CustomChips { chipset: CustomChipState { intreq: chips.chipset.intreq, ..c2.chipset }, playfield: pf4, sprites: sp4, ..c2 }));
        assert(fb == spec_framebuffer_line(vpos, spec_display_window(pf3.diwstrt, pf3.diwstop, pf3.diwhigh).2));
        assert(spec_chip_line(c0, regs0, cia0, chip_ram@, buf0, *chips, regs@, *cia, line_buffer@, fb, effects@));
    }
    (fb, effects)
}

} // verus!
