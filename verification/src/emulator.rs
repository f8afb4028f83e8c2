//! The emulator loop's own logic, apart from running the CPU: disk status
//! and interrupt bookkeeping, the registers the CPU reads back, the copper and
//! CIA work of a scanline, keyboard and mouse input, and the Kickstart
//! compatibility fixes applied at vertical blank.

use vstd::prelude::*;
use crate::chipset::{spec_interrupt_level, CustomChipState};
use crate::blitter::BlitterState;
use crate::capture::translate_amiga_keycode;
use crate::cia::{spec_tick, CiaPair, CiaState};
use crate::copper::{spec_cycle, CopperAction, CopperExecState, CopperState};
use crate::custom::{
    ADKCONR, BEAMCON0_PAL, BPLCON0, COPJMP1, COPJMP2, DIWHIGH, INTENAR, INTREQR, INT_EXTER, INT_PORTS, INT_SETCLR,
};
use crate::floppy::{spec_floppy_wf, spec_write_dsklen, FloppyController, FloppyView};
use crate::memory::SLOW_RAM_START;
use crate::playfield::{PlayfieldState, DISPLAY_HEIGHT, MAX_PLANES};
use crate::registers::{spec_with_high_word, spec_with_low_word, RegisterWriteEffect};

verus! {

/// Big-endian longword of `s` at byte `a`.
pub open spec fn spec_be32(s: Seq<u8>, a: int) -> u32 {
    (s[a] as int * 0x100_0000 + s[a + 1] as int * 0x1_0000 + s[a + 2] as int * 0x100 + s[a + 3] as int) as u32
}

/// Big-endian word of `s` at byte `a`.
pub open spec fn spec_be16(s: Seq<u8>, a: int) -> u16 {
    (s[a] as int * 0x100 + s[a + 1] as int) as u16
}

fn be32(s: &[u8], a: usize) -> (r: u32)
    requires
        a + 3 < s@.len(),
    ensures
        r == spec_be32(s@, a as int),
{
    (s[a] as u32) * 0x100_0000 + (s[a + 1] as u32) * 0x1_0000 + (s[a + 2] as u32) * 0x100 + (s[a + 3] as u32)
}

fn be16(s: &[u8], a: usize) -> (r: u16)
    requires
        a + 1 < s@.len(),
    ensures
        r == spec_be16(s@, a as int),
{
    (s[a] as u16) * 0x100 + (s[a + 1] as u16)
}

/// A longword of physical memory: chip RAM from address 0, slow RAM from
/// `$C00000`; nothing elsewhere or past their ends.
pub open spec fn spec_read_long_phys(chip_ram: Seq<u8>, slow_ram: Seq<u8>, addr: u32) -> Option<u32> {
    if addr + 3 < chip_ram.len() {
        Some(spec_be32(chip_ram, addr as int))
    } else if addr >= SLOW_RAM_START && addr - SLOW_RAM_START + 3 < slow_ram.len() {
        Some(spec_be32(slow_ram, addr - SLOW_RAM_START))
    } else {
        None
    }
}

/// Read a big-endian longword from physical memory (chip RAM or slow RAM).
pub fn read_long_phys(chip_ram: &[u8], slow_ram: &[u8], addr: u32) -> (r: Option<u32>)
    ensures
        r == spec_read_long_phys(chip_ram@, slow_ram@, addr),
{
    if (addr as u64) + 3 < chip_ram.len() as u64 {
        Some(be32(chip_ram, addr as usize))
    } else if addr >= SLOW_RAM_START && ((addr - SLOW_RAM_START) as u64) + 3 < slow_ram.len() as u64 {
        Some(be32(slow_ram, (addr - SLOW_RAM_START) as usize))
    } else {
        None
    }
}

/// The library name `graphics`.
pub open spec fn spec_graphics_name() -> Seq<u8> {
    seq![0x67u8, 0x72, 0x61, 0x70, 0x68, 0x69, 0x63, 0x73]
}

/// Whether `name_ptr` points into the `$FC0000` ROM at the name `graphics`
/// (with at least one byte after it).
pub open spec fn spec_is_graphics_name(rom: Seq<u8>, name_ptr: u32) -> bool {
    &&& 0x00FC_0000 <= name_ptr < 0x0100_0000
    &&& (name_ptr - 0x00FC_0000) + 8 < rom.len()
    &&& rom.subrange(name_ptr - 0x00FC_0000, name_ptr - 0x00FC_0000 + 8) == spec_graphics_name()
}

fn is_graphics_name(rom: &[u8], name_ptr: u32) -> (r: bool)
    ensures
        r == spec_is_graphics_name(rom@, name_ptr),
{
    if name_ptr < 0x00FC_0000 || name_ptr >= 0x0100_0000 {
        return false;
    }
    let off = (name_ptr - 0x00FC_0000) as usize;
    if off + 8 >= rom.len() {
        return false;
    }
    let r = rom[off] == 0x67 && rom[off + 1] == 0x72 && rom[off + 2] == 0x61 && rom[off + 3] == 0x70 && rom[off
        + 4] == 0x68 && rom[off + 5] == 0x69 && rom[off + 6] == 0x63 && rom[off + 7] == 0x73;
    proof {
        let sub = rom@.subrange(off as int, off as int + 8);
        if r {
            assert(sub =~= spec_graphics_name());
        } else {
            assert(sub != spec_graphics_name()) by {
                if sub == spec_graphics_name() {
                    assert(sub[0] == rom@[off as int]);
                    assert(sub[7] == rom@[off + 7]);
                    assert(sub[1] == rom@[off + 1]);
                    assert(sub[2] == rom@[off + 2]);
                    assert(sub[3] == rom@[off + 3]);
                    assert(sub[4] == rom@[off + 4]);
                    assert(sub[5] == rom@[off + 5]);
                    assert(sub[6] == rom@[off + 6]);
                }
            }
        }
    }
    r
}

/// The library node named `graphics` reached from `node` along the exec
/// library list within `steps` nodes (a node's name pointer at offset 10, the
/// next node at offset 0), or 0 when the list ends, is unreadable or runs
/// out of steps.
pub open spec fn spec_find_graphics(chip_ram: Seq<u8>, slow_ram: Seq<u8>, rom: Seq<u8>, node: u32, steps: nat) -> u32
    decreases steps,
{
    if steps == 0 || node == 0 || node + 10 > u32::MAX {
        0
    } else {
        match spec_read_long_phys(chip_ram, slow_ram, (node + 10) as u32) {
            None => 0,
            Some(name_ptr) => if spec_is_graphics_name(rom, name_ptr) {
                node
            } else {
                match spec_read_long_phys(chip_ram, slow_ram, node) {
                    None => 0,
                    Some(next) => spec_find_graphics(chip_ram, slow_ram, rom, next, (steps - 1) as nat),
                }
            },
        }
    }
}

fn find_graphics(chip_ram: &[u8], slow_ram: &[u8], rom: &[u8], node: u32, steps: u32) -> (r: u32)
    ensures
        r == spec_find_graphics(chip_ram@, slow_ram@, rom@, node, steps as nat),
    decreases steps,
{
    if steps == 0 || node == 0 || node > u32::MAX - 10 {
        return 0;
    }
    match read_long_phys(chip_ram, slow_ram, node + 10) {
        None => 0,
        Some(name_ptr) => {
            if is_graphics_name(rom, name_ptr) {
                node
            } else {
                match read_long_phys(chip_ram, slow_ram, node) {
                    None => 0,
                    Some(next) => find_graphics(chip_ram, slow_ram, rom, next, steps - 1),
                }
            }
        },
    }
}

/// The `GfxBase` in use: the cached one, else the `graphics` library found
/// within 30 nodes of the exec library list (ExecBase at address 4, its
/// library list at offset `$17A`), else 0.
pub open spec fn spec_gfxbase(chip_ram: Seq<u8>, slow_ram: Seq<u8>, rom: Seq<u8>, cache: u32) -> u32 {
    if cache != 0 {
        cache
    } else if chip_ram.len() < 8 {
        0
    } else {
        let eb = spec_be32(chip_ram, 4);
        if eb == 0 || eb + 0x17A > u32::MAX {
            0
        } else {
            match spec_read_long_phys(chip_ram, slow_ram, (eb + 0x17A) as u32) {
                None => 0,
                Some(node) => spec_find_graphics(chip_ram, slow_ram, rom, node, 30),
            }
        }
    }
}

/// The system copper list pointer `GfxBase->copinit` (offset `$26`), with
/// the `GfxBase` to cache; no pointer when no `GfxBase` is known or the
/// pointer cannot be read.
pub open spec fn spec_gfx_copinit(chip_ram: Seq<u8>, slow_ram: Seq<u8>, rom: Seq<u8>, cache: u32) -> (Option<u32>, u32) {
    let base = spec_gfxbase(chip_ram, slow_ram, rom, cache);
    if base == 0 {
        (None, 0)
    } else if base + 0x26 > u32::MAX {
        (None, base)
    } else {
        (spec_read_long_phys(chip_ram, slow_ram, (base + 0x26) as u32), base)
    }
}

/// Read `GfxBase->copinit`, the system copper list pointer, looking
/// `GfxBase` up in the exec library list unless `gfxbase_cache` holds it.
/// Returns the pointer and the `GfxBase` to cache. A pointer whose offset
/// would leave the 32-bit address space ends the lookup without a result.
pub fn gfx_copinit(chip_ram: &[u8], slow_ram: &[u8], rom: &[u8], gfxbase_cache: u32) -> (r: (Option<u32>, u32))
    ensures
        r == spec_gfx_copinit(chip_ram@, slow_ram@, rom@, gfxbase_cache),
{
    let base = if gfxbase_cache != 0 {
        gfxbase_cache
    } else if chip_ram.len() < 8 {
        0
    } else {
        let eb = be32(chip_ram, 4);
        if eb == 0 || eb > u32::MAX - 0x17A {
            0
        } else {
            match read_long_phys(chip_ram, slow_ram, eb + 0x17A) {
                None => 0,
                Some(node) => find_graphics(chip_ram, slow_ram, rom, node, 30),
            }
        }
    };
    if base == 0 {
        (None, 0)
    } else if base > u32::MAX - 0x26 {
        (None, base)
    } else {
        (read_long_phys(chip_ram, slow_ram, base + 0x26), base)
    }
}

/// Chip RAM after the hand display's copper list at `cop2lc` is given the
/// Kickstart 1.3 hand colours: only when it starts (after one instruction)
/// with `COLOR00 = $0FFF` and its second colour is still `$0FFF`.
pub open spec fn spec_sync_colormap(chip: Seq<u8>, cop2lc: u32) -> Seq<u8> {
    let c = cop2lc as int;
    if c + 20 >= chip.len() || spec_be16(chip, c + 4) != 0x0180 || spec_be16(chip, c + 6) != 0x0FFF || spec_be16(
        chip,
        c + 10,
    ) != 0x0FFF {
        chip
    } else {
        chip.update(c + 6, 0x0F).update(c + 7, 0xFF).update(c + 10, 0x00).update(c + 11, 0x00).update(
            c + 14,
            0x07,
        ).update(c + 15, 0x7C).update(c + 18, 0x0B).update(c + 19, 0xBB)
    }
}

/// Patch the copper list colours for the Kickstart hand display (white
/// background, black outline, blue fill, grey highlight) when its colour
/// map was never loaded into the list.
pub fn sync_colormap_to_copper(chip_ram: &mut [u8], cop2lc: u32)
    ensures
        final(chip_ram)@ == spec_sync_colormap(old(chip_ram)@, cop2lc),
{
    if (cop2lc as u64) + 20 >= chip_ram.len() as u64 {
        return;
    }
    let cop2 = cop2lc as usize;
    let first_reg = be16(chip_ram, cop2 + 4);
    let first_val = be16(chip_ram, cop2 + 6);
    if first_reg != 0x0180 || first_val != 0x0FFF {
        return;
    }
    let second_val = be16(chip_ram, cop2 + 10);
    if second_val != 0x0FFF {
        return;
    }
    chip_ram[cop2 + 6] = 0x0F;
    chip_ram[cop2 + 7] = 0xFF;
    chip_ram[cop2 + 10] = 0x00;
    chip_ram[cop2 + 11] = 0x00;
    chip_ram[cop2 + 14] = 0x07;
    chip_ram[cop2 + 15] = 0x7C;
    chip_ram[cop2 + 18] = 0x0B;
    chip_ram[cop2 + 19] = 0xBB;
}

/// Whether the emulated machine has run long enough that the boot task
/// exists but Intuition has not yet allocated its signals.
pub open spec fn spec_boot_signal_window(total_cycles: u64) -> bool {
    5_000_000 < total_cycles < 5_100_000
}

/// Chip RAM after signal bit 31 of the boot task (`ThisTask` at ExecBase +
/// `$114`; `tc_SigAlloc` at offset `$12`) is marked allocated, when both
/// pointers are set and inside chip RAM.
pub open spec fn spec_reserve_boot_signal(chip: Seq<u8>) -> Seq<u8> {
    if chip.len() <= 8 {
        chip
    } else {
        let eb = spec_be32(chip, 4) as int;
        if eb == 0 || eb + 0x118 >= chip.len() {
            chip
        } else {
            let tt = spec_be32(chip, eb + 0x114) as int;
            if tt == 0 || tt + 0x16 >= chip.len() {
                chip
            } else {
                chip.update(tt + 0x12, chip[tt + 0x12] | 0x80)
            }
        }
    }
}

/// During the boot window, mark signal bit 31 of the boot task allocated
/// (as input.device or timer.device would have on real hardware) so that a
/// later free of it cannot corrupt the free list.
pub fn reserve_boot_signal(chip_ram: &mut [u8], total_cycles: u64)
    ensures
        spec_boot_signal_window(total_cycles) ==> final(chip_ram)@ == spec_reserve_boot_signal(old(chip_ram)@),
        !spec_boot_signal_window(total_cycles) ==> final(chip_ram)@ == old(chip_ram)@,
{
    if total_cycles <= 5_000_000 || total_cycles >= 5_100_000 || chip_ram.len() <= 8 {
        return;
    }
    let eb = be32(chip_ram, 4) as u64;
    if eb == 0 || eb + 0x118 >= chip_ram.len() as u64 {
        return;
    }
    let tt = be32(chip_ram, (eb + 0x114) as usize) as u64;
    if tt == 0 || tt + 0x16 >= chip_ram.len() as u64 {
        return;
    }
    let i = (tt + 0x12) as usize;
    chip_ram[i] = chip_ram[i] | 0x80;
}

/// Offset in slow RAM of trackdisk's "disk changed" flag of unit 0.
pub const TRACKDISK_CHANGED_OFFSET: usize = 0x4856;

/// Offset in slow RAM of trackdisk's unit 0 structure.
pub const TRACKDISK_UNIT_OFFSET: usize = 0x4730;

/// Slow RAM after trackdisk's unit 0 is flagged as having seen a disk
/// change, once the unit exists and the flag is still clear.
pub open spec fn spec_mark_disk_changed(slow: Seq<u8>) -> Seq<u8> {
    if slow.len() > TRACKDISK_CHANGED_OFFSET && slow[TRACKDISK_CHANGED_OFFSET as int] == 0
        && slow[TRACKDISK_UNIT_OFFSET as int] != 0 {
        slow.update(TRACKDISK_CHANGED_OFFSET as int, 1)
    } else {
        slow
    }
}

/// Set trackdisk's "disk changed" flag, which the CIA-B FLAG interrupt
/// handler would set on real hardware.
pub fn mark_trackdisk_disk_changed(slow_ram: &mut Vec<u8>)
    ensures
        final(slow_ram)@ == spec_mark_disk_changed(old(slow_ram)@),
{
    if slow_ram.len() > TRACKDISK_CHANGED_OFFSET && slow_ram[TRACKDISK_CHANGED_OFFSET] == 0
        && slow_ram[TRACKDISK_UNIT_OFFSET] != 0 {
        slow_ram.set(TRACKDISK_CHANGED_OFFSET, 1);
    }
}

/// The interrupt level presented to the CPU: the chipset's level when an
/// enabled request is pending and interrupts are enabled (INTEN), else 0.
pub open spec fn spec_cpu_interrupt_level(c: CustomChipState) -> u32 {
    if c.intreq & c.intena & 0x3FFF != 0 && c.intena & INT_SETCLR != 0 {
        spec_interrupt_level(c.intreq & c.intena) as u32
    } else {
        0
    }
}

/// The interrupt level presented to the CPU.
pub fn cpu_interrupt_level(chipset: &CustomChipState) -> (r: u32)
    ensures
        r == spec_cpu_interrupt_level(*chipset),
{
    let pending = chipset.intreq & chipset.intena & 0x3FFF;
    if pending != 0 && (chipset.intena & INT_SETCLR) != 0 {
        chipset.interrupt_level() as u32
    } else {
        0
    }
}

/// A bitplane pointer advanced by a signed 16-bit modulo, wrapping.
pub open spec fn spec_add_modulo(ptr: u32, modulo: u16) -> u32 {
    let m: int = if modulo < 0x8000 { modulo as int } else { modulo as int - 0x1_0000 };
    ((ptr as int + m) % 0x1_0000_0000) as u32
}

/// Add the bitplane modulos at the end of a displayed line: odd planes
/// (index 0, 2, 4) take BPL1MOD, even planes BPL2MOD; at most six planes.
pub fn apply_bitplane_modulos(bplpt: &mut [u32; MAX_PLANES], num_planes: usize, bpl1mod: u16, bpl2mod: u16)
    ensures
        forall|i: int|
            0 <= i < MAX_PLANES ==> #[trigger] final(bplpt)@[i] == (if i < num_planes && i < 6 {
                spec_add_modulo(old(bplpt)@[i], if i % 2 == 0 { bpl1mod } else { bpl2mod })
            } else {
                old(bplpt)@[i]
            }),
{
    let n = if num_planes < 6 { num_planes } else { 6 };
    let mut i: usize = 0;
    while i < n
        invariant
            n <= 6,
            n == (if num_planes < 6 { num_planes } else { 6 }),
            i <= n,
            forall|k: int|
                0 <= k < MAX_PLANES ==> #[trigger] bplpt@[k] == (if k < i {
                    spec_add_modulo(old(bplpt)@[k], if k % 2 == 0 { bpl1mod } else { bpl2mod })
                } else {
                    old(bplpt)@[k]
                }),
        decreases n - i,
    {
        let m = if i % 2 == 0 { bpl1mod } else { bpl2mod };
        let p = bplpt[i];
        let q = if m < 0x8000 {
            p.wrapping_add(m as u32)
        } else {
            p.wrapping_sub(0x1_0000 - m as u32)
        };
        assert(q == spec_add_modulo(p, m));
        bplpt[i] = q;
        i += 1;
    }
}

/// The framebuffer line that beam line `vpos` fills: lines from the top of
/// the display window on, within the visible height.
pub open spec fn spec_framebuffer_line(vpos: u16, vstart: u16) -> Option<u16> {
    if vpos >= vstart && vpos - vstart < DISPLAY_HEIGHT {
        Some((vpos - vstart) as u16)
    } else {
        None
    }
}

/// The framebuffer line that beam line `vpos` fills, if any.
pub fn framebuffer_line(vpos: u16, vstart: u16) -> (r: Option<u16>)
    ensures
        r == spec_framebuffer_line(vpos, vstart),
{
    if vpos >= vstart && ((vpos - vstart) as u32) < DISPLAY_HEIGHT {
        Some(vpos - vstart)
    } else {
        None
    }
}

/// Number of CIA E-clock ticks per scanline (709379 Hz / 15625 Hz).
pub const CIA_TICKS_PER_LINE: u32 = 45;

/// A CIA after `n` E-clock ticks, and whether any of them raised its
/// interrupt line.
pub open spec fn spec_ticks(s: CiaState, n: nat) -> (CiaState, bool)
    decreases n,
{
    if n == 0 {
        (s, false)
    } else {
        let (p, fired) = spec_ticks(s, (n - 1) as nat);
        let (q, now) = spec_tick(p);
        (q, fired || now)
    }
}

/// The CIA pair after one scanline of E-clock ticks, and the INTREQ bits it
/// raises: PORTS for CIA-A and EXTER for CIA-B, when a tick raised the line
/// or the line is up.
pub open spec fn spec_tick_cia_line(cia: CiaPair) -> (CiaPair, u16) {
    let (a, fa) = spec_ticks(cia.cia_a, CIA_TICKS_PER_LINE as nat);
    let (b, fb) = spec_ticks(cia.cia_b, CIA_TICKS_PER_LINE as nat);
    (
        CiaPair { cia_a: a, cia_b: b },
        (if fa || a.icr_ir { INT_PORTS } else { 0u16 }) | (if fb || b.icr_ir { INT_EXTER } else { 0u16 }),
    )
}

/// Clock both CIAs for one scanline; returns the INTREQ bits to raise.
pub fn tick_cia_line(cia: &mut CiaPair) -> (raised: u16)
    ensures
        (*final(cia), raised) == spec_tick_cia_line(*old(cia)),
{
    let ghost a0 = cia.cia_a;
    let ghost b0 = cia.cia_b;
    let mut fired_a = false;
    let mut fired_b = false;
    let mut i: u32 = 0;
    while i < CIA_TICKS_PER_LINE
        invariant
            i <= CIA_TICKS_PER_LINE,
            (cia.cia_a, fired_a) == spec_ticks(a0, i as nat),
            (cia.cia_b, fired_b) == spec_ticks(b0, i as nat),
        decreases CIA_TICKS_PER_LINE - i,
    {
        if cia.cia_a.tick() {
            fired_a = true;
        }
        if cia.cia_b.tick() {
            fired_b = true;
        }
        i += 1;
    }
    let ports: u16 = if fired_a || cia.cia_a.icr_ir { INT_PORTS } else { 0 };
    let exter: u16 = if fired_b || cia.cia_b.icr_ir { INT_EXTER } else { 0 };
    ports | exter
}

/// The copper after the first `h` colour clocks of line `vpos`, and the
/// register writes it made, in order. COPJMP1 and COPJMP2 restart the copper
/// at once instead of being reported.
pub open spec fn spec_copper_upto(c: CopperState, chip_ram: Seq<u8>, vpos: u16, h: nat) -> (CopperState, Seq<(u16, u16)>)
    decreases h,
{
    if h == 0 {
        (c, Seq::empty())
    } else {
        let (c1, w1) = spec_copper_upto(c, chip_ram, vpos, (h - 1) as nat);
        let (c2, action) = spec_cycle(c1, chip_ram, vpos, (h - 1) as u16);
        match action {
            None => (c2, w1),
            Some(CopperAction::WriteRegister { offset, value }) => if offset == COPJMP1 {
                (CopperState { pc: c2.cop1lc, state: CopperExecState::FetchFirst, ..c2 }, w1)
            } else if offset == COPJMP2 {
                (CopperState { pc: c2.cop2lc, state: CopperExecState::FetchFirst, ..c2 }, w1)
            } else {
                (c2, w1.push((offset, value)))
            },
        }
    }
}

/// Number of copper cycles in a scanline.
pub const COPPER_CYCLES_PER_LINE: u16 = 227;

/// The copper after running scanline `vpos`, and its register writes.
pub open spec fn spec_copper_line(c: CopperState, chip_ram: Seq<u8>, vpos: u16) -> (CopperState, Seq<(u16, u16)>) {
    if c.enabled {
        spec_copper_upto(c, chip_ram, vpos, COPPER_CYCLES_PER_LINE as nat)
    } else {
        (c, Seq::empty())
    }
}

/// Run the copper across scanline `vpos`; returns the register writes to
/// dispatch, in order.
pub fn run_copper_line(copper: &mut CopperState, chip_ram: &[u8], vpos: u16) -> (writes: Vec<(u16, u16)>)
    ensures
        (*final(copper), writes@) == spec_copper_line(*old(copper), chip_ram@, vpos),
{
    let mut writes: Vec<(u16, u16)> = Vec::new();
    if !copper.enabled {
        return writes;
    }
    let ghost c0 = *copper;
    let mut h: u16 = 0;
    while h < COPPER_CYCLES_PER_LINE
        invariant
            h <= COPPER_CYCLES_PER_LINE,
            (*copper, writes@) == spec_copper_upto(c0, chip_ram@, vpos, h as nat),
        decreases COPPER_CYCLES_PER_LINE - h,
    {
        match copper.cycle(chip_ram, vpos, h) {
            Some(CopperAction::WriteRegister { offset, value }) => {
                if offset == COPJMP1 {
                    copper.strobe_cop1();
                } else if offset == COPJMP2 {
                    copper.strobe_cop2();
                } else {
                    writes.push((offset, value));
                }
            },
            None => {},
        }
        h += 1;
    }
    writes
}

/// Maximum number of key events waiting for the keyboard serial line.
pub const MAX_KEY_EVENTS: usize = 16;

/// Frames the keyboard waits after sending a key before the next.
pub const KEYBOARD_DELAY_FRAMES: u8 = 3;

/// Key events waiting to be sent to CIA-A, and the frames left before the
/// next may be sent.
pub struct KeyboardState {
    /// Key events waiting, oldest first.
    pub events: Vec<(u8, bool)>,
    /// Frames left before the next key may be sent.
    pub delay: u8,
}

impl KeyboardState {
    /// The queued key events, oldest first.
    pub open spec fn queue(&self) -> Seq<(u8, bool)> {
        self.events@
    }

    /// No events queued, no delay.
    pub fn new() -> (r: Self)
        ensures
            r.queue() == Seq::<(u8, bool)>::empty(),
            r.delay == 0,
    {
        KeyboardState { events: Vec::new(), delay: 0 }
    }

    /// The number of queued events.
    pub fn len(&self) -> (r: usize)
        ensures
            r == self.queue().len(),
    {
        self.events.len()
    }

    /// Queue a key event; events beyond [`MAX_KEY_EVENTS`] waiting are dropped.
    pub fn key_event(&mut self, keycode: u8, pressed: bool)
        ensures
            final(self).delay == old(self).delay,
            old(self).queue().len() < MAX_KEY_EVENTS ==> final(self).queue() == old(self).queue().push(
                (keycode, pressed),
            ),
            old(self).queue().len() >= MAX_KEY_EVENTS ==> final(self).queue() == old(self).queue(),
    {
        if self.events.len() < MAX_KEY_EVENTS {
            self.events.push((keycode, pressed));
        }
    }

    /// Once per scanline: when the delay has run out and CIA-A's interrupt
    /// line is down, send the oldest event through the serial data register
    /// (release codes carry bit 7), flag the serial port interrupt, and wait
    /// [`KEYBOARD_DELAY_FRAMES`] frames.
    pub fn deliver(&mut self, cia_a: &mut CiaState)
        ensures
            ({
                let q = old(self).queue();
                if old(self).delay == 0 && !old(cia_a).icr_ir && q.len() > 0 {
                    let code = if q[0].1 { q[0].0 } else { q[0].0 | 0x80 };
                    &&& final(self).queue() == q.drop_first()
                    &&& final(self).delay == KEYBOARD_DELAY_FRAMES
                    &&& *final(cia_a) == (CiaState {
                        sdr: (255 - ((code as int * 2) % 256 + code as int / 128)) as u8,
                        icr_data: old(cia_a).icr_data | 0x08,
                        icr_ir: old(cia_a).icr_mask & 0x08 != 0,
                        ..*old(cia_a)
                    })
                } else {
                    &&& final(self).queue() == q
                    &&& final(self).delay == old(self).delay
                    &&& *final(cia_a) == *old(cia_a)
                }
            }),
    {
        if self.delay != 0 || cia_a.icr_ir || self.events.len() == 0 {
            return;
        }
        let (keycode, pressed) = self.events[0];
        let code = if pressed { keycode } else { keycode | 0x80 };
        cia_a.sdr = translate_amiga_keycode(code);
        cia_a.icr_data = cia_a.icr_data | 0x08;
        if (cia_a.icr_mask & 0x08) != 0 {
            cia_a.icr_ir = true;
        }
        self.events.remove(0);
        self.delay = KEYBOARD_DELAY_FRAMES;
        proof {
            assert(self.events@ =~= old(self).events@.drop_first());
        }
    }

    /// At vertical blank the delay counts down by one frame.
    pub fn end_frame(&mut self)
        ensures
            final(self).queue() == old(self).queue(),
            final(self).delay == (if old(self).delay > 0 { old(self).delay - 1 } else { 0 }),
    {
        if self.delay > 0 {
            self.delay = self.delay - 1;
        }
    }
}

/// The mouse: movement accumulated this frame, its buttons, and the port 1
/// quadrature counters the CPU reads.
#[derive(Clone, Copy, Debug, PartialEq, Eq, Structural)]
pub struct MouseState {
    /// Horizontal movement this frame.
    pub dx: i16,
    /// Vertical movement this frame.
    pub dy: i16,
    /// Left button pressed.
    pub left: bool,
    /// Right button pressed.
    pub right: bool,
    /// Horizontal quadrature counter.
    pub x_counter: u8,
    /// Vertical quadrature counter.
    pub y_counter: u8,
}

/// `a + b` clamped to the `i16` range.
pub open spec fn spec_saturating_add_i16(a: i16, b: i16) -> i16 {
    if a + b > i16::MAX {
        i16::MAX
    } else if a + b < i16::MIN {
        i16::MIN
    } else {
        (a + b) as i16
    }
}

/// A quadrature counter moved by `d`, wrapping at 256.
pub open spec fn spec_counter_step(c: u8, d: i16) -> u8 {
    ((c as int + d as int) % 256) as u8
}

fn saturating_add_i16(a: i16, b: i16) -> (r: i16)
    ensures
        r == spec_saturating_add_i16(a, b),
{
    let sum = a as i32 + b as i32;
    if sum > i16::MAX as i32 {
        i16::MAX
    } else if sum < i16::MIN as i32 {
        i16::MIN
    } else {
        sum as i16
    }
}

#[verifier::spinoff_prover]
fn counter_step(c: u8, d: i16) -> (r: u8)
    ensures
        r == spec_counter_step(c, d),
{
    let t: i32 = (c as i32) + (d as i32) % 256 + 256;
    proof {
        assert(0 <= t < 768);
        assert(t % 256 == (c as int + d as int) % 256);
    }
    (t % 256) as u8
}

impl MouseState {
    /// At rest: no movement, no buttons, counters at 0.
    pub fn new() -> (r: Self)
        ensures
            r == (MouseState { dx: 0, dy: 0, left: false, right: false, x_counter: 0, y_counter: 0 }),
    {
        MouseState { dx: 0, dy: 0, left: false, right: false, x_counter: 0, y_counter: 0 }
    }

    /// Accumulate mouse movement: the frame's deltas saturate, the
    /// quadrature counters wrap.
    pub fn mouse_move(&mut self, dx: i16, dy: i16)
        ensures
            *final(self) == (MouseState {
                dx: spec_saturating_add_i16(old(self).dx, dx),
                dy: spec_saturating_add_i16(old(self).dy, dy),
                x_counter: spec_counter_step(old(self).x_counter, dx),
                y_counter: spec_counter_step(old(self).y_counter, dy),
                ..*old(self)
            }),
    {
        self.dx = saturating_add_i16(self.dx, dx);
        self.dy = saturating_add_i16(self.dy, dy);
        self.x_counter = counter_step(self.x_counter, dx);
        self.y_counter = counter_step(self.y_counter, dy);
    }

    /// Set the button state.
    pub fn mouse_button(&mut self, left: bool, right: bool)
        ensures
            *final(self) == (MouseState { left, right, ..*old(self) }),
    {
        self.left = left;
        self.right = right;
    }

    /// At the frame boundary the movement deltas restart from zero.
    pub fn end_frame(&mut self)
        ensures
            *final(self) == (MouseState { dx: 0, dy: 0, ..*old(self) }),
    {
        self.dx = 0;
        self.dy = 0;
    }
}

/// The custom register shadow with the live chipset state the CPU reads
/// back: VPOSR (long frame, OCS Agnus, vpos bit 8), VHPOSR, DMACONR (with
/// BBUSY while a blit runs), INTENAR, INTREQR, BEAMCON0 (PAL), SERDATR
/// (transmitter empty), POTGOR (right button, active low), JOY0DAT (mouse
/// counters), JOY1DAT (no joystick) and DENISEID (no such register on OCS).
pub open spec fn spec_readable_regs(regs: Seq<u16>, c: CustomChipState, blit_busy: bool, mouse: MouseState) -> Seq<u16> {
    regs.update(2, 0x8000u16 | ((c.vpos >> 8u16) & 1u16)).update(3, (c.vpos << 8u16) | (c.hpos & 0xFFu16)).update(
        1,
        if blit_busy { (c.dmacon & 0x7FFFu16) | 0x4000u16 } else { c.dmacon & 0x7FFFu16 },
    ).update(14, c.intena & 0x7FFFu16).update(15, c.intreq & 0x7FFFu16).update(0xEE, BEAMCON0_PAL).update(
        12,
        0x3000u16,
    ).update(11, if mouse.right { 0xFB00u16 } else { 0xFF00u16 }).update(
        5,
        (mouse.y_counter as int * 256 + mouse.x_counter as int) as u16,
    ).update(6, 0u16).update(62, 0xFFFFu16)
}

/// Copy the live chipset state into the custom register shadow so that CPU
/// reads see it.
pub fn sync_readable_regs(regs: &mut [u16; 256], chipset: &CustomChipState, blit_busy: bool, mouse: &MouseState)
    ensures
        final(regs)@ == spec_readable_regs(old(regs)@, *chipset, blit_busy, *mouse),
{
    regs[2] = 0x8000 | ((chipset.vpos >> 8) & 1);
    regs[3] = (chipset.vpos << 8) | (chipset.hpos & 0xFF);
    let mut dmacon = chipset.dmacon & 0x7FFF;
    if blit_busy {
        dmacon = dmacon | 0x4000;
    }
    regs[1] = dmacon;
    regs[14] = chipset.intena & 0x7FFF;
    regs[15] = chipset.intreq & 0x7FFF;
    regs[0xEE] = BEAMCON0_PAL;
    regs[12] = 0x3000;
    let potgor: u16 = if mouse.right { 0xFB00 } else { 0xFF00 };
    regs[11] = potgor;
    regs[5] = (mouse.y_counter as u16) * 256 + (mouse.x_counter as u16);
    regs[6] = 0x0000;
    regs[62] = 0xFFFF;
    proof {
        assert(regs@ =~= spec_readable_regs(old(regs)@, *chipset, blit_busy, *mouse));
    }
}

/// Copy the playfield registers the copper may have changed from the custom
/// register shadow into the playfield: BPLCON0–2, the display window and
/// data fetch registers, and the 32 colours (12 bits each).
pub fn sync_playfield_registers(pf: &mut PlayfieldState, regs: &[u16; 256])
    ensures
        *final(pf) == (PlayfieldState {
            bplcon0: regs@[0x80],
            bplcon1: regs@[0x81],
            bplcon2: regs@[0x82],
            diwstrt: regs@[0x47],
            diwstop: regs@[0x48],
            diwhigh: regs@[0xF2],
            ddfstrt: regs@[0x49],
            ddfstop: regs@[0x4A],
            color: final(pf).color,
            ..*old(pf)
        }),
        forall|i: int| 0 <= i < 32 ==> #[trigger] final(pf).color@[i] == regs@[0xC0 + i] & 0x0FFF,
{
    pf.bplcon0 = regs[(BPLCON0 / 2) as usize];
    pf.bplcon1 = regs[0x102 / 2];
    pf.bplcon2 = regs[0x104 / 2];
    pf.diwstrt = regs[0x08E / 2];
    pf.diwstop = regs[0x090 / 2];
    pf.diwhigh = regs[(DIWHIGH / 2) as usize];
    pf.ddfstrt = regs[0x092 / 2];
    pf.ddfstop = regs[0x094 / 2];
    let ghost mid = *pf;
    let mut i: usize = 0;
    while i < 32
        invariant
            i <= 32,
            *pf == (PlayfieldState { color: pf.color, ..mid }),
            forall|k: int| 0 <= k < i ==> #[trigger] pf.color@[k] == regs@[0xC0 + k] & 0x0FFF,
        decreases 32 - i,
    {
        pf.color[i] = regs[0x180 / 2 + i] & 0x0FFF;
        i += 1;
    }
}

/// The blitter once a blit that ran elsewhere has finished: its final
/// registers when it handed them back, else the current ones, idle and done.
pub fn finish_completed_blitter(blitter: &mut BlitterState, completed: Option<BlitterState>)
    ensures
        match completed {
            Some(b) => *final(blitter) == (BlitterState { busy: false, done: true, ..b }),
            None => *final(blitter) == (BlitterState { busy: false, done: true, ..*old(blitter) }),
        },
{
    if let Some(b) = completed {
        *blitter = b;
    }
    blitter.busy = false;
    blitter.done = true;
}

/// The floppy controller and custom register shadow after a register
/// write's remaining effect, and whether a blit must now start: the
/// interrupt read-back copies follow INTREQ and INTENA, and the disk
/// registers reach the floppy controller (DSKLEN with the current ADKCON).
pub open spec fn spec_apply_write_effect(effect: RegisterWriteEffect, f: FloppyView, regs: Seq<u16>) -> (FloppyView, Seq<u16>, bool) {
    match effect {
        RegisterWriteEffect::Done => (f, regs, false),
        RegisterWriteEffect::InterruptsChanged { intreq, intena } => (
            f,
            regs.update((INTREQR / 2) as int, intreq).update((INTENAR / 2) as int, intena),
            false,
        ),
        RegisterWriteEffect::DiskLength(value) => (
            spec_write_dsklen(f, value, regs[(ADKCONR / 2) as int]),
            regs,
            false,
        ),
        RegisterWriteEffect::DiskSync(value) => (FloppyView { dsksync: value, ..f }, regs, false),
        RegisterWriteEffect::DiskPointerHigh(value) => (
            FloppyView { dskpt: spec_with_high_word(f.dskpt, value), ..f },
            regs,
            false,
        ),
        RegisterWriteEffect::DiskPointerLow(value) => (
            FloppyView { dskpt: spec_with_low_word(f.dskpt, value), ..f },
            regs,
            false,
        ),
        RegisterWriteEffect::StartBlit => (f, regs, true),
    }
}

/// Carry out what a custom register write asks of the machine beyond the
/// custom chips; returns whether a blit must now run.
pub fn apply_write_effect(effect: RegisterWriteEffect, floppy: &mut FloppyController, regs: &mut [u16; 256]) -> (start_blit: bool)
    requires
        spec_floppy_wf(old(floppy)@),
    ensures
        (final(floppy)@, final(regs)@, start_blit) == spec_apply_write_effect(effect, old(floppy)@, old(regs)@),
{
    match effect {
        RegisterWriteEffect::Done => false,
        RegisterWriteEffect::InterruptsChanged { intreq, intena } => {
            regs[(INTREQR / 2) as usize] = intreq;
            regs[(INTENAR / 2) as usize] = intena;
            false
        },
        RegisterWriteEffect::DiskLength(value) => {
            let adkcon = regs[(ADKCONR / 2) as usize];
            floppy.write_dsklen(value, adkcon);
            false
        },
        RegisterWriteEffect::DiskSync(value) => {
            floppy.write_dsksync(value);
            false
        },
        RegisterWriteEffect::DiskPointerHigh(value) => {
            floppy.set_dskpt_high(value);
            false
        },
        RegisterWriteEffect::DiskPointerLow(value) => {
            floppy.set_dskpt_low(value);
            false
        },
        RegisterWriteEffect::StartBlit => true,
    }
}

} // verus!
