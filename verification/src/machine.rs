//! The machine around the CPU for one scanline, in the order the emulator
//! runs it once the CPU has had its share of the line: the chip work of the
//! line, the register-write effects that reach the floppy controller and the
//! blitter, the floppy drives' spin-up and status lines, keyboard delivery,
//! disk DMA, and at the vertical blank the frame housekeeping (keyboard and
//! mouse, the Kickstart fixes, the copper restart, sprite re-arming, CIA-A's
//! TOD and the CIA timer kick); last the interrupt registers are mirrored for
//! the CPU.

use vstd::prelude::*;
use crate::blitter::{spec_area_blit, spec_line_blit, BlitterState};
use crate::capture::force_start_cia_timer;
use crate::cia::{tod_value, CiaPair, CiaState};
use crate::custom::{DMA_DISK, DMA_MASTER, INTENAR, INTREQR};
use crate::emulator::{
    apply_write_effect, gfx_copinit, mark_trackdisk_disk_changed, reserve_boot_signal, spec_apply_write_effect,
    spec_boot_signal_window, spec_gfx_copinit, spec_mark_disk_changed, spec_reserve_boot_signal, spec_sync_colormap,
    sync_colormap_to_copper, KeyboardState, MouseState,
};
use crate::floppy::{
    spec_disk_status, spec_dma_cycle, spec_first_selected, spec_floppy_stream_ok, spec_floppy_wf, spec_tick_drive,
    spec_word_cycles, FloppyController, FloppyView,
};
use crate::registers::{CustomChips, RegisterWriteEffect};
use crate::scanline::{run_chip_line, spec_chip_line};
use crate::sprites::{SpriteState, NUM_SPRITES};

verus! {

/// Emulated CPU cycles after which the CIA timers are started if the
/// operating system has not started them.
pub const FORCE_CIA_TIMER_THRESHOLD: u64 = 22_000_000;

/// The state of the machine around the CPU that a scanline changes.
pub struct LineMachine {
    /// The custom chips.
    pub chips: CustomChips,
    /// The floppy controller and its drives.
    pub floppy: FloppyController,
    /// Key events waiting for the keyboard serial line.
    pub keyboard: KeyboardState,
    /// The mouse.
    pub mouse: MouseState,
    /// The custom register shadow the CPU reads.
    pub regs: [u16; 256],
    /// The two CIAs.
    pub cia: CiaPair,
    /// Chip RAM.
    pub chip_ram: Vec<u8>,
    /// Slow RAM.
    pub slow_ram: Vec<u8>,
    /// The Kickstart ROM.
    pub rom: Vec<u8>,
    /// The floppy status lines CIA-A port A reads.
    pub disk_status: u8,
    /// The DSKBYTR value the CPU reads.
    pub dskbytr: u16,
    /// Emulated CPU cycles so far.
    pub total_cycles: u64,
    /// GfxBase, once found.
    pub gfxbase_cache: u32,
    /// How many times the CIA timers were started for the operating system.
    pub forced_cia_timer_starts: u32,
    /// Set at each vertical blank: a frame is complete.
    pub frame_ready: bool,
}

/// A blit run to completion.
pub open spec fn spec_blit(b: BlitterState, ram: Seq<u8>) -> (BlitterState, Seq<u8>) {
    let r = if b.bltcon1 & 1 != 0 { spec_line_blit(b, ram) } else { spec_area_blit(b, ram) };
    (BlitterState { busy: false, done: true, ..r.0 }, r.1)
}

/// The register-write effects applied in order: floppy registers reach the
/// controller, interrupt changes the register shadow, and a started blit
/// runs to completion.
pub open spec fn spec_apply_effects(
    f: FloppyView,
    regs: Seq<u16>,
    b: BlitterState,
    ram: Seq<u8>,
    effects: Seq<RegisterWriteEffect>,
) -> (FloppyView, Seq<u16>, BlitterState, Seq<u8>)
    decreases effects.len(),
{
    if effects.len() == 0 {
        (f, regs, b, ram)
    } else {
        let p = spec_apply_effects(f, regs, b, ram, effects.drop_last());
        let (f2, r2, start) = spec_apply_write_effect(effects.last(), p.0, p.1);
        if start {
            let blit = spec_blit(p.2, p.3);
            (f2, r2, blit.0, blit.1)
        } else {
            (f2, r2, p.2, p.3)
        }
    }
}

/// `n` disk DMA word cycles: each moves one word and DSKBYTR follows the
/// controller; a drive whose MFM stream has no room left stops the run.
pub open spec fn spec_disk_dma_run(f: FloppyView, ram: Seq<u8>, bytr: u16, n: nat) -> (FloppyView, Seq<u8>, u16)
    decreases n,
{
    if n == 0 {
        (f, ram, bytr)
    } else {
        let p = spec_disk_dma_run(f, ram, bytr, (n - 1) as nat);
        if spec_floppy_stream_ok(p.0) {
            let c = spec_dma_cycle(p.0, p.1);
            (c.0, c.1, c.0.dskbytr_val)
        } else {
            p
        }
    }
}

/// The floppy part of a line: the drives tick, the status lines are read
/// when they can be, and with disk DMA on the controller runs the line's
/// word cycles.
pub open spec fn spec_floppy_line(
    f: FloppyView,
    ram: Seq<u8>,
    status: u8,
    bytr: u16,
    disk_dma: bool,
    f2: FloppyView,
    ram2: Seq<u8>,
    status2: u8,
    bytr2: u16,
) -> bool {
    let ticked = FloppyView { drives: Seq::new(4, |i: int| spec_tick_drive(f.drives[i])), ..f };
    let readable = ticked.selected != 0x0F && !ticked.drives[spec_first_selected(ticked.selected)].motor
        ==> ticked.drives[spec_first_selected(ticked.selected)].id_shift_count < 32;
    &&& status2 == (if readable { spec_disk_status(ticked) } else { status })
    &&& if disk_dma {
        let (n, timed) = spec_word_cycles(ticked);
        (f2, ram2, bytr2) == spec_disk_dma_run(timed, ram, bytr, n as nat)
    } else {
        f2 == ticked && ram2 == ram && bytr2 == bytr
    }
}

/// The vertical blank housekeeping of the machine `m`, giving `m2`:
/// - the keyboard's delay counts down a frame;
/// - in the Kickstart boot window the boot task's signal is reserved;
/// - the copper's first list follows GfxBase's copinit when it is found
///   and lies in chip RAM, and the colour map is copied into the copper
///   list at COP2LC;
/// - the copper restarts at COP1LC, sprites are disarmed, a frame is ready;
/// - CIA-A's TOD counts the frame and the mouse deltas restart;
/// - past [`FORCE_CIA_TIMER_THRESHOLD`] cycles both CIA timer A's are
///   started, and the count of starts goes up when either was stopped;
/// - trackdisk's disk-changed flag is set once its unit exists.
pub open spec fn spec_vblank(m: LineMachine, m2: LineMachine) -> bool {
    let ram1 = if spec_boot_signal_window(m.total_cycles) {
        spec_reserve_boot_signal(m.chip_ram@)
    } else {
        m.chip_ram@
    };
    let (copinit, cache) = spec_gfx_copinit(ram1, m.slow_ram@, m.rom@, m.gfxbase_cache);
    let cop1lc = match copinit {
        Some(c) => if c != 0 && c < ram1.len() { c } else { m.chips.copper.cop1lc },
        None => m.chips.copper.cop1lc,
    };
    let copper = m.chips.copper;
    let force = m.total_cycles > FORCE_CIA_TIMER_THRESHOLD;
    let cra_a = m.cia.cia_a.cra;
    let cra_b = m.cia.cia_b.cra;
    &&& m2.keyboard.queue() == m.keyboard.queue()
    &&& m2.keyboard.delay == (if m.keyboard.delay > 0 { m.keyboard.delay - 1 } else { 0 })
    &&& m2.chip_ram@ == spec_sync_colormap(ram1, copper.cop2lc)
    &&& m2.gfxbase_cache == cache
    &&& m2.chips.copper == (crate::copper::CopperState {
        cop1lc: cop1lc,
        pc: cop1lc,
        ir1: 0,
        ir2: 0,
        state: crate::copper::CopperExecState::FetchFirst,
        ..copper
    })
    &&& forall|i: int|
        0 <= i < NUM_SPRITES ==> #[trigger] m2.chips.sprites.sprites@[i] == (SpriteState {
            active: false,
            armed: false,
            ..m.chips.sprites.sprites@[i]
        })
    &&& m2.chips.chipset == m.chips.chipset && m2.chips.playfield == m.chips.playfield
    &&& m2.chips.blitter == m.chips.blitter
    &&& m2.frame_ready
    &&& m2.cia.cia_b == (CiaState { cra: (if force && cra_b % 2 == 0 { (cra_b + 1) as u8 } else { cra_b }), ..m.cia.cia_b })
    &&& m2.cia.cia_a == (CiaState {
        tod: m2.cia.cia_a.tod,
        cra: (if force && cra_a % 2 == 0 { (cra_a + 1) as u8 } else { cra_a }),
        ..m.cia.cia_a
    })
    &&& tod_value(m2.cia.cia_a.tod) == (tod_value(m.cia.cia_a.tod) + 1) % 0x100_0000
    &&& m2.forced_cia_timer_starts == (if force && (cra_a % 2 == 0 || cra_b % 2 == 0) {
        vstd::wrapping::u32_specs::wrapping_add(m.forced_cia_timer_starts, 1)
    } else {
        m.forced_cia_timer_starts
    })
    &&& m2.mouse == (MouseState { dx: 0, dy: 0, ..m.mouse })
    &&& m2.slow_ram@ == spec_mark_disk_changed(m.slow_ram@)
    &&& m2.floppy@ == m.floppy@ && m2.regs == m.regs && m2.rom@ == m.rom@
    &&& m2.disk_status == m.disk_status && m2.dskbytr == m.dskbytr && m2.total_cycles == m.total_cycles
}

/// The keyboard `kb` delivering to CIA-A `a`, giving `kb2` and `a2` (see
/// [`KeyboardState::deliver`]).
pub open spec fn spec_delivered(kb: KeyboardState, a: CiaState, kb2: KeyboardState, a2: CiaState) -> bool {
    let q = kb.queue();
    if kb.delay == 0 && !a.icr_ir && q.len() > 0 {
        let code = if q[0].1 { q[0].0 } else { q[0].0 | 0x80 };
        &&& kb2.queue() == q.drop_first()
        &&& kb2.delay == crate::emulator::KEYBOARD_DELAY_FRAMES
        &&& a2 == (CiaState {
            sdr: (255 - ((code as int * 2) % 256 + code as int / 128)) as u8,
            icr_data: a.icr_data | 0x08,
            icr_ir: a.icr_mask & 0x08 != 0,
            ..a
        })
    } else {
        &&& kb2.queue() == q
        &&& kb2.delay == kb.delay
        &&& a2 == a
    }
}

/// What one scanline does to the machine around the CPU, `m0` with line
/// buffer `buf0` giving `m` with `buf` and framebuffer line `fb`, through the
/// intermediate machines `m1` to `m4` and the write effects `effects`:
/// 1. the chip work of the line ([`spec_chip_line`]);
/// 2. the effects of the copper's register writes on the floppy controller,
///    the register shadow and the blitter ([`spec_apply_effects`]);
/// 3. the floppy drives, status lines and disk DMA ([`spec_floppy_line`]),
///    and keyboard delivery to CIA-A ([`spec_delivered`]); the two touch
///    disjoint state;
/// 4. on line 0 the vertical blank housekeeping ([`spec_vblank`]);
/// 5. INTREQR and INTENAR mirror the interrupt registers.
pub open spec fn spec_machine_steps(
    m0: LineMachine,
    buf0: Seq<u16>,
    m: LineMachine,
    buf: Seq<u16>,
    fb: Option<u16>,
    m1: LineMachine,
    m2: LineMachine,
    m3: LineMachine,
    m4: LineMachine,
    effects: Seq<RegisterWriteEffect>,
) -> bool {
    &&& spec_chip_line(m0.chips, m0.regs@, m0.cia, m0.chip_ram@, buf0, m1.chips, m1.regs@, m1.cia, buf, fb, effects)
    &&& m1 == (LineMachine { chips: m1.chips, regs: m1.regs, cia: m1.cia, ..m0 })
    &&& (m2.floppy@, m2.regs@, m2.chips.blitter, m2.chip_ram@) == spec_apply_effects(
        m1.floppy@,
        m1.regs@,
        m1.chips.blitter,
        m1.chip_ram@,
        effects,
    )
    &&& m2 == (LineMachine {
        chips: CustomChips { blitter: m2.chips.blitter, ..m1.chips },
        floppy: m2.floppy,
        regs: m2.regs,
        chip_ram: m2.chip_ram,
        ..m1
    })
    &&& spec_floppy_line(
        m2.floppy@,
        m2.chip_ram@,
        m2.disk_status,
        m2.dskbytr,
        spec_disk_dma(m2),
        m3.floppy@,
        m3.chip_ram@,
        m3.disk_status,
        m3.dskbytr,
    )
    &&& spec_delivered(m2.keyboard, m2.cia.cia_a, m3.keyboard, m3.cia.cia_a)
    &&& m3 == (LineMachine {
        floppy: m3.floppy,
        chip_ram: m3.chip_ram,
        disk_status: m3.disk_status,
        dskbytr: m3.dskbytr,
        keyboard: m3.keyboard,
        cia: CiaPair { cia_a: m3.cia.cia_a, ..m2.cia },
        ..m2
    })
    &&& if m1.chips.chipset.vpos == 0 {
        spec_vblank(m3, m4)
    } else {
        m4 == m3
    }
    &&& m.regs@ == m4.regs@.update((INTREQR / 2) as int, m4.chips.chipset.intreq).update(
        (INTENAR / 2) as int,
        m4.chips.chipset.intena,
    )
    &&& m == (LineMachine { regs: m.regs, ..m4 })
}

/// See [`spec_machine_steps`].
pub open spec fn spec_machine_line(m0: LineMachine, buf0: Seq<u16>, m: LineMachine, buf: Seq<u16>, fb: Option<u16>) -> bool {
    exists|m1: LineMachine, m2: LineMachine, m3: LineMachine, m4: LineMachine, effects: Seq<RegisterWriteEffect>|
        #[trigger] spec_machine_steps(m0, buf0, m, buf, fb, m1, m2, m3, m4, effects)
}

/// Whether disk DMA is on.
pub open spec fn spec_disk_dma(m: LineMachine) -> bool {
    m.chips.chipset.dmacon & DMA_DISK != 0 && m.chips.chipset.dmacon & DMA_MASTER != 0
}


/// A register-write effect keeps the floppy controller well formed.
proof fn lemma_write_effect_keeps_wf(e: RegisterWriteEffect, f: FloppyView, regs: Seq<u16>)
    requires
        spec_floppy_wf(f),
    ensures
        spec_floppy_wf(spec_apply_write_effect(e, f, regs).0),
{
}

/// Apply the register-write effects in order (see [`spec_apply_effects`]).
fn apply_effects(
    blitter: &mut BlitterState,
    floppy: &mut FloppyController,
    regs: &mut [u16; 256],
    chip_ram: &mut Vec<u8>,
    effects: &Vec<RegisterWriteEffect>,
)
    requires
        spec_floppy_wf(old(floppy)@),
        old(chip_ram)@.len() > 0,
    ensures
        (final(floppy)@, final(regs)@, *final(blitter), final(chip_ram)@) == spec_apply_effects(
            old(floppy)@,
            old(regs)@,
            *old(blitter),
            old(chip_ram)@,
            effects@,
        ),
        spec_floppy_wf(final(floppy)@),
        final(chip_ram)@.len() == old(chip_ram)@.len(),
{
    let ghost f0 = floppy@;
    let ghost r0 = regs@;
    let ghost b0 = *blitter;
    let ghost ram0 = chip_ram@;
    let mut i: usize = 0;
    while i < effects.len()
        invariant
            i <= effects@.len(),
            spec_floppy_wf(floppy@),
            chip_ram@.len() == ram0.len(),
            ram0.len() > 0,
            (floppy@, regs@, *blitter, chip_ram@) == spec_apply_effects(f0, r0, b0, ram0, effects@.take(i as int)),
        decreases effects@.len() - i,
    {
        proof {
            assert(effects@.take(i as int + 1).drop_last() =~= effects@.take(i as int));
            assert(effects@.take(i as int + 1).last() == effects@[i as int]);
        }
        let ghost fb = floppy@;
        let ghost rb = regs@;
        let start = apply_write_effect(effects[i], floppy, regs);
        proof {
            lemma_write_effect_keeps_wf(effects@[i as int], fb, rb);
        }
        if start {
            blitter.execute_blit(chip_ram.as_mut_slice());
        }
        i += 1;
    }
    proof {
        assert(effects@.take(i as int) =~= effects@);
    }
}


/// The floppy part of a line (see [`spec_floppy_line`]).
fn floppy_line(floppy: &mut FloppyController, chip_ram: &mut Vec<u8>, disk_status: &mut u8, dskbytr: &mut u16, disk_dma: bool)
    requires
        spec_floppy_wf(old(floppy)@),
    ensures
        spec_floppy_line(
            old(floppy)@,
            old(chip_ram)@,
            *old(disk_status),
            *old(dskbytr),
            disk_dma,
            final(floppy)@,
            final(chip_ram)@,
            *final(disk_status),
            *final(dskbytr),
        ),
        spec_floppy_wf(final(floppy)@),
        final(chip_ram)@.len() == old(chip_ram)@.len(),
{
    floppy.tick_scanline();
    if floppy.status_readable() {
        *disk_status = floppy.disk_status();
    }
    if disk_dma {
        let n = floppy.dma_word_cycles_for_scanline();
        let ghost timed = floppy@;
        let ghost ram0 = chip_ram@;
        let ghost bytr0 = *dskbytr;
        let mut k: usize = 0;
        while k < n
            invariant
                k <= n,
                spec_floppy_wf(floppy@),
                chip_ram@.len() == ram0.len(),
                (floppy@, chip_ram@, *dskbytr) == spec_disk_dma_run(timed, ram0, bytr0, k as nat),
            decreases n - k,
        {
            if floppy.streams_ok() {
                floppy.disk_dma_cycle(chip_ram.as_mut_slice());
                *dskbytr = floppy.dskbytr_value();
            }
            k += 1;
        }
    }
}


/// The vertical blank housekeeping (see [`spec_vblank`]).
fn vblank(m: &mut LineMachine)
    ensures
        spec_vblank(*old(m), *final(m)),
{
    m.keyboard.end_frame();
    reserve_boot_signal(m.chip_ram.as_mut_slice(), m.total_cycles);
    let (copinit, cache) = gfx_copinit(m.chip_ram.as_slice(), m.slow_ram.as_slice(), m.rom.as_slice(), m.gfxbase_cache);
    m.gfxbase_cache = cache;
    match copinit {
        Some(c) => {
            if c != 0 && (c as u64) < m.chip_ram.len() as u64 {
                m.chips.copper.cop1lc = c;
            }
        },
        None => {},
    }
    let cop2lc = m.chips.copper.cop2lc;
    sync_colormap_to_copper(m.chip_ram.as_mut_slice(), cop2lc);
    m.chips.copper.restart_vertical_blank();
    m.frame_ready = true;
    let ghost sp0 = m.chips.sprites.sprites@;
    let ghost pre = *m;
    let mut i: usize = 0;
    while i < NUM_SPRITES
        invariant
            i <= NUM_SPRITES,
            *m == (LineMachine { chips: CustomChips { sprites: m.chips.sprites, ..pre.chips }, ..pre }),
            forall|k: int|
                0 <= k < NUM_SPRITES ==> #[trigger] m.chips.sprites.sprites@[k] == (if k < i {
                    SpriteState { active: false, armed: false, ..sp0[k] }
                } else {
                    sp0[k]
                }),
        decreases NUM_SPRITES - i,
    {
        let mut t = m.chips.sprites.sprites[i];
        t.active = false;
        t.armed = false;
        m.chips.sprites.sprites[i] = t;
        i += 1;
    }
    m.cia.cia_a.tick_tod();
    m.mouse.end_frame();
    if m.total_cycles > FORCE_CIA_TIMER_THRESHOLD {
        let applied_a = force_start_cia_timer(&mut m.cia.cia_a.cra);
        let applied_b = force_start_cia_timer(&mut m.cia.cia_b.cra);
        if applied_a || applied_b {
            m.forced_cia_timer_starts = m.forced_cia_timer_starts.wrapping_add(1);
        }
    }
    mark_trackdisk_disk_changed(&mut m.slow_ram);
}


impl LineMachine {
    /// Run one scanline of the machine around the CPU (see
    /// [`spec_machine_steps`]); returns the framebuffer line that
    /// `line_buffer` now holds, if the line is displayed.
    #[verifier::rlimit(40)]
    #[verifier::spinoff_prover]
    pub fn run_line(&mut self, line_buffer: &mut [u16]) -> (fb: Option<u16>)
        requires
            0 < old(self).chip_ram@.len() <= u32::MAX,
            spec_floppy_wf(old(self).floppy@),
        ensures
            spec_machine_line(*old(self), old(line_buffer)@, *final(self), final(line_buffer)@, fb),
            final(self).chip_ram@.len() == old(self).chip_ram@.len(),
            spec_floppy_wf(final(self).floppy@),
    {
        let ghost m0 = *self;
        let ghost buf0 = line_buffer@;
        let (fb, effects) = run_chip_line(&mut self.chips, &mut self.regs, &mut self.cia, self.chip_ram.as_slice(), line_buffer);
        let ghost m1 = *self;
        apply_effects(&mut self.chips.blitter, &mut self.floppy, &mut self.regs, &mut self.chip_ram, &effects);
        let ghost m2 = *self;
        let disk_dma = self.chips.chipset.dmaen(DMA_DISK);
        floppy_line(&mut self.floppy, &mut self.chip_ram, &mut self.disk_status, &mut self.dskbytr, disk_dma);
        self.keyboard.deliver(&mut self.cia.cia_a);
        let ghost m3 = *self;
        if self.chips.chipset.vpos == 0 {
            vblank(self);
        }
        let ghost m4 = *self;
        self.regs[(INTREQR / 2) as usize] = self.chips.chipset.intreq;
        self.regs[(INTENAR / 2) as usize] = self.chips.chipset.intena;
        proof {
            assert(spec_machine_steps(m0, buf0, *self, line_buffer@, fb, m1, m2, m3, m4, effects@));
        }
        fb
    }
}

} // verus!
