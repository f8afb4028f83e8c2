//! CIA 8520 emulation.
//!
//! The Amiga contains two CIA 8520 chips providing timers, I/O ports,
//! a time-of-day counter, and serial shift registers.

use vstd::prelude::*;
use vstd::array::spec_array_update;

verus! {

/// Register index: Peripheral Data Register A.
pub const REG_PRA: u8 = 0x0;
/// Register index: Peripheral Data Register B.
pub const REG_PRB: u8 = 0x1;
/// Register index: Data Direction Register A.
pub const REG_DDRA: u8 = 0x2;
/// Register index: Data Direction Register B.
pub const REG_DDRB: u8 = 0x3;
/// Register index: Timer A low byte.
pub const REG_TALO: u8 = 0x4;
/// Register index: Timer A high byte.
pub const REG_TAHI: u8 = 0x5;
/// Register index: Timer B low byte.
pub const REG_TBLO: u8 = 0x6;
/// Register index: Timer B high byte.
pub const REG_TBHI: u8 = 0x7;
/// Register index: TOD low byte.
pub const REG_TOD_LO: u8 = 0x8;
/// Register index: TOD mid byte.
pub const REG_TOD_MID: u8 = 0x9;
/// Register index: TOD high byte.
pub const REG_TOD_HI: u8 = 0xA;
/// Register index: Serial Data Register.
pub const REG_SDR: u8 = 0xC;
/// Register index: Interrupt Control Register.
pub const REG_ICR: u8 = 0xD;
/// Register index: Control Register A.
pub const REG_CRA: u8 = 0xE;
/// Register index: Control Register B.
pub const REG_CRB: u8 = 0xF;

/// CRA/CRB bit: timer start.
pub const CR_START: u8 = 1;
/// CRA/CRB bit: one-shot mode.
pub const CR_ONESHOT: u8 = 8;
/// CRA/CRB bit: force load.
pub const CR_LOAD: u8 = 16;

/// ICR bit: Timer A underflow.
pub const ICR_TA: u8 = 1;
/// ICR bit: Timer B underflow.
pub const ICR_TB: u8 = 2;
/// ICR bit: set/clear control.
pub const ICR_SET: u8 = 128;

/// Counters of how timer A was driven.
#[derive(Clone, Copy, Debug, PartialEq, Eq, Structural)]
pub struct TimerStats {
    /// Writes to CRA with the START bit set (saturating).
    pub start_writes: u32,
}

/// State of a single CIA 8520 chip.
#[derive(Clone, Copy, Debug)]
pub struct CiaState {
    /// Peripheral Data Register A.
    pub pra: u8,
    /// Peripheral Data Register B.
    pub prb: u8,
    /// Data Direction Register A.
    pub ddra: u8,
    /// Data Direction Register B.
    pub ddrb: u8,
    /// Timer A counter.
    pub timer_a: u16,
    /// Timer A latch (reload value).
    pub timer_a_latch: u16,
    /// Timer B counter.
    pub timer_b: u16,
    /// Timer B latch (reload value).
    pub timer_b_latch: u16,
    /// Control Register A.
    pub cra: u8,
    /// Control Register B.
    pub crb: u8,
    /// Interrupt control data (pending flags).
    pub icr_data: u8,
    /// Interrupt control mask (enabled interrupts).
    pub icr_mask: u8,
    /// Whether the interrupt line is currently asserted (IR flag, bit 7).
    pub icr_ir: bool,
    /// Time-of-day counter (low, mid, high).
    pub tod: [u8; 3],
    /// TOD alarm value.
    pub tod_alarm: [u8; 3],
    /// Whether TOD output is latched.
    pub tod_latched: bool,
    /// Latched TOD value for reading.
    pub tod_latch: [u8; 3],
    /// Serial Data Register.
    pub sdr: u8,
    /// How timer A was driven.
    pub timer_a_stats: TimerStats,
}

/// Result of reading register `reg`: the value and the state afterwards.
pub open spec fn spec_read(s: CiaState, reg: u8) -> (u8, CiaState) {
    if reg == REG_PRA {
        (s.pra, s)
    } else if reg == REG_PRB {
        (s.prb, s)
    } else if reg == REG_DDRA {
        (s.ddra, s)
    } else if reg == REG_DDRB {
        (s.ddrb, s)
    } else if reg == REG_TALO {
        ((s.timer_a & 0xFF) as u8, s)
    } else if reg == REG_TAHI {
        ((s.timer_a >> 8u16) as u8, s)
    } else if reg == REG_TBLO {
        ((s.timer_b & 0xFF) as u8, s)
    } else if reg == REG_TBHI {
        ((s.timer_b >> 8u16) as u8, s)
    } else if reg == REG_TOD_LO {
        (if s.tod_latched { s.tod_latch@[0] } else { s.tod@[0] }, CiaState { tod_latched: false, ..s })
    } else if reg == REG_TOD_MID {
        (if s.tod_latched { s.tod_latch@[1] } else { s.tod@[1] }, s)
    } else if reg == REG_TOD_HI {
        (s.tod@[2], CiaState { tod_latched: true, tod_latch: s.tod, ..s })
    } else if reg == REG_SDR {
        (s.sdr, s)
    } else if reg == REG_ICR {
        (if s.icr_ir { s.icr_data | 0x80 } else { s.icr_data }, CiaState { icr_data: 0, icr_ir: false, ..s })
    } else if reg == REG_CRA {
        (s.cra, s)
    } else if reg == REG_CRB {
        (s.crb, s)
    } else {
        (0, s)
    }
}

/// Whether pending and enabled interrupt sources would assert a line that is down.
pub open spec fn icr_rethink(s: CiaState) -> bool {
    s.icr_data & s.icr_mask & 0x1F != 0 && !s.icr_ir
}

/// State after writing `value` to register `reg`.
pub open spec fn spec_write(s: CiaState, reg: u8, value: u8) -> CiaState {
    if reg == REG_PRA {
        CiaState { pra: value, ..s }
    } else if reg == REG_PRB {
        CiaState { prb: value, ..s }
    } else if reg == REG_DDRA {
        CiaState { ddra: value, ..s }
    } else if reg == REG_DDRB {
        CiaState { ddrb: value, ..s }
    } else if reg == REG_TALO {
        CiaState { timer_a_latch: ((s.timer_a_latch & 0xFF00) | (value as u16)) as u16, ..s }
    } else if reg == REG_TAHI {
        let latch = ((s.timer_a_latch & 0x00FF) | ((value as u16) << 8u16)) as u16;
        CiaState {
            timer_a_latch: latch,
            timer_a: if s.cra & CR_START == 0 { latch } else { s.timer_a },
            ..s
        }
    } else if reg == REG_TBLO {
        CiaState { timer_b_latch: ((s.timer_b_latch & 0xFF00) | (value as u16)) as u16, ..s }
    } else if reg == REG_TBHI {
        let latch = ((s.timer_b_latch & 0x00FF) | ((value as u16) << 8u16)) as u16;
        CiaState {
            timer_b_latch: latch,
            timer_b: if s.crb & CR_START == 0 { latch } else { s.timer_b },
            ..s
        }
    } else if reg == REG_TOD_LO || reg == REG_TOD_MID || reg == REG_TOD_HI {
        let i = (reg - REG_TOD_LO) as int;
        if s.crb & 0x80 != 0 {
            CiaState { tod_alarm: spec_array_update(s.tod_alarm, i, value), ..s }
        } else {
            CiaState { tod: spec_array_update(s.tod, i, value), ..s }
        }
    } else if reg == REG_SDR {
        CiaState { sdr: value, ..s }
    } else if reg == REG_ICR {
        let mask = if value & ICR_SET != 0 {
            s.icr_mask | (value & 0x1F)
        } else {
            s.icr_mask & !(value & 0x1F)
        };
        let t = CiaState { icr_mask: mask, ..s };
        CiaState { icr_ir: s.icr_ir || icr_rethink(t), ..t }
    } else if reg == REG_CRA {
        CiaState {
            cra: value & !CR_LOAD,
            timer_a: if value & CR_LOAD != 0 { s.timer_a_latch } else { s.timer_a },
            timer_a_stats: if value & CR_START != 0 && s.timer_a_stats.start_writes < u32::MAX {
                TimerStats { start_writes: (s.timer_a_stats.start_writes + 1) as u32 }
            } else {
                s.timer_a_stats
            },
            ..s
        }
    } else if reg == REG_CRB {
        CiaState {
            crb: value & !CR_LOAD,
            timer_b: if value & CR_LOAD != 0 { s.timer_b_latch } else { s.timer_b },
            ..s
        }
    } else {
        s
    }
}

/// Timer A after one tick: counts down while started; on underflow it reloads
/// from its latch, flags `ICR_TA`, and stops if one-shot.
pub open spec fn spec_tick_a(s: CiaState) -> CiaState {
    if s.cra & CR_START == 0 {
        s
    } else if s.timer_a == 0 {
        CiaState {
            timer_a: s.timer_a_latch,
            icr_data: s.icr_data | ICR_TA,
            cra: if s.cra & CR_ONESHOT != 0 { s.cra & !CR_START } else { s.cra },
            ..s
        }
    } else {
        CiaState { timer_a: (s.timer_a - 1) as u16, ..s }
    }
}

/// Timer B after one tick (same rules as timer A, flagging `ICR_TB`).
pub open spec fn spec_tick_b(s: CiaState) -> CiaState {
    if s.crb & CR_START == 0 {
        s
    } else if s.timer_b == 0 {
        CiaState {
            timer_b: s.timer_b_latch,
            icr_data: s.icr_data | ICR_TB,
            crb: if s.crb & CR_ONESHOT != 0 { s.crb & !CR_START } else { s.crb },
            ..s
        }
    } else {
        CiaState { timer_b: (s.timer_b - 1) as u16, ..s }
    }
}

/// One timer tick: both timers advance, then the interrupt line rises if an
/// enabled source is pending and the line was down. Returns the new state and
/// whether the line rose.
pub open spec fn spec_tick(s: CiaState) -> (CiaState, bool) {
    let t = spec_tick_b(spec_tick_a(s));
    if icr_rethink(t) {
        (CiaState { icr_ir: true, ..t }, true)
    } else {
        (t, false)
    }
}

/// The time-of-day counter as a 24-bit number.
pub open spec fn tod_value(tod: [u8; 3]) -> int {
    tod@[0] + 256 * tod@[1] + 65536 * tod@[2]
}

impl CiaState {
    /// Create a new CIA in its reset state.
    pub fn new() -> (r: Self)
        ensures
            r.pra == 0 && r.prb == 0xFF && r.ddra == 0 && r.ddrb == 0,
            r.timer_a == 0xFFFF && r.timer_a_latch == 0xFFFF,
            r.timer_b == 0xFFFF && r.timer_b_latch == 0xFFFF,
            r.cra == 0 && r.crb == 0 && r.icr_data == 0 && r.icr_mask == 0 && !r.icr_ir,
            r.tod@ == seq![0u8, 0u8, 0u8] && r.tod_alarm@ == seq![0u8, 0u8, 0u8],
            !r.tod_latched && r.tod_latch@ == seq![0u8, 0u8, 0u8] && r.sdr == 0,
            r.timer_a_stats.start_writes == 0,
            r == CiaState::spec_reset(),
    {
        let r = Self {
            pra: 0,
            prb: 0xFF,
            ddra: 0,
            ddrb: 0,
            timer_a: 0xFFFF,
            timer_a_latch: 0xFFFF,
            timer_b: 0xFFFF,
            timer_b_latch: 0xFFFF,
            cra: 0,
            crb: 0,
            icr_data: 0,
            icr_mask: 0,
            icr_ir: false,
            tod: [0; 3],
            tod_alarm: [0; 3],
            tod_latched: false,
            tod_latch: [0; 3],
            sdr: 0,
            timer_a_stats: TimerStats { start_writes: 0 },
        };
        assert(r.tod@ =~= seq![0u8, 0u8, 0u8]);
        assert(r.tod_alarm@ =~= seq![0u8, 0u8, 0u8]);
        assert(r.tod_latch@ =~= seq![0u8, 0u8, 0u8]);
        r
    }

    /// Read a CIA register by index (0x0–0xF).
    ///
    /// Reading the TOD high byte latches the counter until the low byte is read;
    /// reading ICR returns and clears the pending flags.
    pub fn read(&mut self, reg: u8) -> (r: u8)
        ensures
            (r, *final(self)) == spec_read(*old(self), reg),
    {
        if reg == REG_PRA {
            self.pra
        } else if reg == REG_PRB {
            self.prb
        } else if reg == REG_DDRA {
            self.ddra
        } else if reg == REG_DDRB {
            self.ddrb
        } else if reg == REG_TALO {
            (self.timer_a & 0xFF) as u8
        } else if reg == REG_TAHI {
            (self.timer_a >> 8) as u8
        } else if reg == REG_TBLO {
            (self.timer_b & 0xFF) as u8
        } else if reg == REG_TBHI {
            (self.timer_b >> 8) as u8
        } else if reg == REG_TOD_LO {
            let val = if self.tod_latched { self.tod_latch[0] } else { self.tod[0] };
            self.tod_latched = false;
            val
        } else if reg == REG_TOD_MID {
            if self.tod_latched { self.tod_latch[1] } else { self.tod[1] }
        } else if reg == REG_TOD_HI {
            self.tod_latched = true;
            self.tod_latch = self.tod;
            self.tod_latch[2]
        } else if reg == REG_SDR {
            self.sdr
        } else if reg == REG_ICR {
            let mut val = self.icr_data;
            if self.icr_ir {
                val = val | 0x80;
            }
            self.icr_data = 0;
            self.icr_ir = false;
            val
        } else if reg == REG_CRA {
            self.cra
        } else if reg == REG_CRB {
            self.crb
        } else {
            0
        }
    }

    /// Write a CIA register by index (0x0–0xF).
    pub fn write(&mut self, reg: u8, value: u8)
        ensures
            *final(self) == spec_write(*old(self), reg, value),
    {
        if reg == REG_PRA {
            self.pra = value;
        } else if reg == REG_PRB {
            self.prb = value;
        } else if reg == REG_DDRA {
            self.ddra = value;
        } else if reg == REG_DDRB {
            self.ddrb = value;
        } else if reg == REG_TALO {
            self.timer_a_latch = (self.timer_a_latch & 0xFF00) | (value as u16);
        } else if reg == REG_TAHI {
            self.timer_a_latch = (self.timer_a_latch & 0x00FF) | ((value as u16) << 8);
            if self.cra & CR_START == 0 {
                self.timer_a = self.timer_a_latch;
            }
        } else if reg == REG_TBLO {
            self.timer_b_latch = (self.timer_b_latch & 0xFF00) | (value as u16);
        } else if reg == REG_TBHI {
            self.timer_b_latch = (self.timer_b_latch & 0x00FF) | ((value as u16) << 8);
            if self.crb & CR_START == 0 {
                self.timer_b = self.timer_b_latch;
            }
        } else if reg == REG_TOD_LO || reg == REG_TOD_MID || reg == REG_TOD_HI {
            let i = (reg - REG_TOD_LO) as usize;
            if self.crb & 0x80 != 0 {
                self.tod_alarm[i] = value;
            } else {
                self.tod[i] = value;
            }
        } else if reg == REG_SDR {
            self.sdr = value;
        } else if reg == REG_ICR {
            if value & ICR_SET != 0 {
                self.icr_mask = self.icr_mask | (value & 0x1F);
            } else {
                self.icr_mask = self.icr_mask & !(value & 0x1F);
            }
            if self.icr_data & self.icr_mask & 0x1F != 0 && !self.icr_ir {
                self.icr_ir = true;
            }
        } else if reg == REG_CRA {
            self.cra = value & !CR_LOAD;
            if value & CR_LOAD != 0 {
                self.timer_a = self.timer_a_latch;
            }
            if value & CR_START != 0 && self.timer_a_stats.start_writes < u32::MAX {
                self.timer_a_stats.start_writes = self.timer_a_stats.start_writes + 1;
            }
        } else if reg == REG_CRB {
            self.crb = value & !CR_LOAD;
            if value & CR_LOAD != 0 {
                self.timer_b = self.timer_b_latch;
            }
        }
    }

    /// Advance timers by one tick. Returns `true` if an interrupt should fire.
    pub fn tick(&mut self) -> (fired: bool)
        ensures
            (*final(self), fired) == spec_tick(*old(self)),
    {
        if self.cra & CR_START != 0 {
            self.timer_a = self.timer_a.wrapping_sub(1);
            if self.timer_a == 0xFFFF {
                self.icr_data = self.icr_data | ICR_TA;
                self.timer_a = self.timer_a_latch;
                if self.cra & CR_ONESHOT != 0 {
                    self.cra = self.cra & !CR_START;
                }
            }
        }
        if self.crb & CR_START != 0 {
            self.timer_b = self.timer_b.wrapping_sub(1);
            if self.timer_b == 0xFFFF {
                self.icr_data = self.icr_data | ICR_TB;
                self.timer_b = self.timer_b_latch;
                if self.crb & CR_ONESHOT != 0 {
                    self.crb = self.crb & !CR_START;
                }
            }
        }
        if self.icr_data & self.icr_mask & 0x1F != 0 && !self.icr_ir {
            self.icr_ir = true;
            return true;
        }
        false
    }

    /// Advance the TOD counter by one tick (a 24-bit counter that wraps).
    pub fn tick_tod(&mut self)
        ensures
            tod_value(final(self).tod) == (tod_value(old(self).tod) + 1) % 0x100_0000,
            *final(self) == (CiaState { tod: final(self).tod, ..*old(self) }),
    {
        self.tod[0] = self.tod[0].wrapping_add(1);
        if self.tod[0] == 0 {
            self.tod[1] = self.tod[1].wrapping_add(1);
            if self.tod[1] == 0 {
                self.tod[2] = self.tod[2].wrapping_add(1);
            }
        }
    }

    /// Check if the interrupt line is asserted.
    pub fn irq_pending(&self) -> (r: bool)
        ensures
            r == self.icr_ir,
    {
        self.icr_ir
    }
}

impl Default for CiaState {
    fn default() -> (r: Self)
        ensures
            r == CiaState::spec_reset(),
    {
        Self::new()
    }
}

impl CiaState {
    /// The reset state of a CIA.
    pub open spec fn spec_reset() -> CiaState {
        CiaState {
            pra: 0,
            prb: 0xFF,
            ddra: 0,
            ddrb: 0,
            timer_a: 0xFFFF,
            timer_a_latch: 0xFFFF,
            timer_b: 0xFFFF,
            timer_b_latch: 0xFFFF,
            cra: 0,
            crb: 0,
            icr_data: 0,
            icr_mask: 0,
            icr_ir: false,
            tod: vstd::array::spec_array_fill_for_copy_type(0u8),
            tod_alarm: vstd::array::spec_array_fill_for_copy_type(0u8),
            tod_latched: false,
            tod_latch: vstd::array::spec_array_fill_for_copy_type(0u8),
            sdr: 0,
            timer_a_stats: TimerStats { start_writes: 0 },
        }
    }
}

/// A pair of CIA chips (CIA-A and CIA-B) as found in the Amiga.
#[derive(Clone, Copy, Debug)]
pub struct CiaPair {
    /// CIA-A (keyboard, gameports, disk, LED).
    pub cia_a: CiaState,
    /// CIA-B (parallel port, disk control).
    pub cia_b: CiaState,
}

impl CiaPair {
    /// Create a new CIA pair in reset state.
    pub fn new() -> (r: Self)
        ensures
            r.cia_a == CiaState::spec_reset(),
            r.cia_b == CiaState::spec_reset(),
    {
        Self { cia_a: CiaState::new(), cia_b: CiaState::new() }
    }
}

impl Default for CiaPair {
    fn default() -> (r: Self)
        ensures
            r.cia_a == CiaState::spec_reset(),
            r.cia_b == CiaState::spec_reset(),
    {
        Self::new()
    }
}

/// The port, direction and serial registers read back what was last written.
pub proof fn law_register_read_after_write(s: CiaState, reg: u8, value: u8)
    requires
        reg == REG_PRA || reg == REG_PRB || reg == REG_DDRA || reg == REG_DDRB || reg == REG_SDR,
    ensures
        spec_read(spec_write(s, reg, value), reg).0 == value,
{
}

/// Reading ICR returns the pending flags and leaves none pending and the line down.
pub proof fn law_icr_read_clears(s: CiaState)
    ensures
        spec_read(s, REG_ICR).0 & 0x7F == s.icr_data & 0x7F,
        spec_read(s, REG_ICR).1.icr_data == 0,
        !spec_read(s, REG_ICR).1.icr_ir,
{
    let d = s.icr_data;
    assert((d | 0x80) & 0x7F == d & 0x7F) by (bit_vector);
}

/// A started timer loaded with `n` counts down for `n` ticks, underflows on the
/// next, reloads its latch and raises `ICR_TA`.
pub proof fn law_timer_a_underflow(s: CiaState)
    requires
        s.cra & CR_START != 0,
    ensures
        s.timer_a > 0 ==> spec_tick(s).0.timer_a == s.timer_a - 1,
        s.timer_a == 0 ==> spec_tick(s).0.timer_a == s.timer_a_latch,
        s.timer_a == 0 ==> spec_tick(s).0.icr_data & ICR_TA != 0,
{
    lemma_flag_bits(s.icr_data, s.cra);
}

proof fn lemma_flag_bits(d: u8, c: u8)
    by (bit_vector)
    ensures
        (d | 1u8) & 1u8 != 0 && ((d | 1u8) | 2u8) & 1u8 != 0 && (d | 2u8) & 1u8 == d & 1u8,
        (d | 2u8) & 2u8 != 0 && ((d | 1u8) | 2u8) & 2u8 != 0,
        (c & !1u8) & 1u8 == 0,
        (c & !1u8) & 8u8 == c & 8u8,
{
}

/// A timer that underflows reloads its latch and flags its interrupt bit.
/// In one-shot mode the underflow also stops it: the START bit is cleared
/// (the one-shot bit stays), so the next tick leaves its count alone and it
/// cannot underflow again until restarted. In continuous mode its control
/// register is unchanged and it keeps running. Timers A and B alike.
pub proof fn law_one_shot_timer_stops(s: CiaState)
    ensures
        ({
            let t = spec_tick(s).0;
            s.cra & CR_START != 0 && s.timer_a == 0 ==> {
                &&& t.timer_a == s.timer_a_latch && t.icr_data & ICR_TA != 0
                &&& s.cra & CR_ONESHOT != 0 ==> t.cra & CR_START == 0 && t.cra & CR_ONESHOT != 0
                    && spec_tick(t).0.timer_a == t.timer_a
                &&& s.cra & CR_ONESHOT == 0 ==> t.cra == s.cra
            }
        }),
        ({
            let t = spec_tick(s).0;
            s.crb & CR_START != 0 && s.timer_b == 0 ==> {
                &&& t.timer_b == s.timer_b_latch && t.icr_data & ICR_TB != 0
                &&& s.crb & CR_ONESHOT != 0 ==> t.crb & CR_START == 0 && t.crb & CR_ONESHOT != 0
                    && spec_tick(t).0.timer_b == t.timer_b
                &&& s.crb & CR_ONESHOT == 0 ==> t.crb == s.crb
            }
        }),
{
    lemma_flag_bits(s.icr_data, s.cra);
    lemma_flag_bits(s.icr_data, s.crb);
}

} // verus!
