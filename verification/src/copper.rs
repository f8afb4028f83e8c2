//! Copper coprocessor emulation.
//!
//! The Copper executes a list of instructions synchronised to the video beam:
//! MOVE (write a register), WAIT (wait for a beam position), and SKIP
//! (conditionally skip the next instruction).

use vstd::prelude::*;

verus! {

/// Minimum register offset the Copper can write without the danger bit.
pub const SAFE_REG_MIN: u16 = 0x40;

/// Execution state of the Copper coprocessor.
#[derive(Clone, Copy, Debug, PartialEq, Eq, Structural)]
pub enum CopperExecState {
    /// Copper is idle (DMA disabled or end of list).
    Idle,
    /// Fetching the first instruction word.
    FetchFirst,
    /// Fetching the second instruction word.
    FetchSecond,
    /// Executing the decoded instruction.
    Execute,
}

impl Default for CopperExecState {
    fn default() -> (r: Self)
        ensures
            r == CopperExecState::Idle,
    {
        CopperExecState::Idle
    }
}

/// Action produced by the Copper on a given cycle.
#[derive(Clone, Copy, Debug, PartialEq, Eq, Structural)]
pub enum CopperAction {
    /// Copper MOVE: write `value` to custom register at `offset`.
    WriteRegister {
        /// Register offset from `$DFF000`.
        offset: u16,
        /// Value to write.
        value: u16,
    },
}

/// Copper coprocessor state.
#[derive(Clone, Debug)]
pub struct CopperState {
    /// Copper list 1 pointer.
    pub cop1lc: u32,
    /// Copper list 2 pointer.
    pub cop2lc: u32,
    /// Current program counter.
    pub pc: u32,
    /// First instruction word (fetched).
    pub ir1: u16,
    /// Second instruction word (fetched).
    pub ir2: u16,
    /// Current execution state.
    pub state: CopperExecState,
    /// Copper DMA enabled.
    pub enabled: bool,
    /// COPCON danger bit (allows writes to registers `$00`–`$3F`).
    pub danger: bool,
}

/// Big-endian word the Copper reads from chip RAM at `pc`: the address wraps
/// within chip RAM, and a word that would straddle its end reads as zero.
pub open spec fn spec_chip_word(ram: Seq<u8>, pc: u32) -> u16 {
    if ram.len() == 0 {
        0
    } else {
        let addr = (pc as int) % (ram.len() as int);
        if addr + 1 < ram.len() {
            (ram[addr] as int * 256 + ram[addr + 1] as int) as u16
        } else {
            0
        }
    }
}

/// First word of the end-of-list WAIT (`$FFFF`): the conventional end of a
/// Copper list, a wait for a beam position no frame reaches.
pub const END_OF_LIST_IR1: u16 = 0xFFFF;
/// Second word of the end-of-list WAIT (`$FFFE`).
pub const END_OF_LIST_IR2: u16 = 0xFFFE;

/// Whether a WAIT/SKIP comparison against the beam position is satisfied.
pub open spec fn spec_beam_condition(ir1: u16, ir2: u16, vpos: u16, hpos: u16) -> bool {
    let target_v = (ir1 >> 8u16) & 0xFF;
    let target_h = (ir1 >> 1u16) & 0x7F;
    let vmask = (ir2 >> 8u16) | 0x80;
    let hmask = (ir2 >> 1u16) & 0x7F;
    let beam_v = vpos & vmask;
    let wait_v = target_v & vmask;
    beam_v > wait_v || (beam_v == wait_v && (hpos & hmask) >= (target_h & hmask))
}

/// Result of executing the fetched instruction pair at the given beam position.
pub open spec fn spec_execute(s: CopperState, vpos: u16, hpos: u16) -> (CopperState, Option<CopperAction>) {
    if s.ir1 == 0 && s.ir2 == 0 {
        (CopperState { state: CopperExecState::Idle, ..s }, None)
    } else if s.ir1 == END_OF_LIST_IR1 && s.ir2 == END_OF_LIST_IR2 {
        (s, None)
    } else if s.ir1 & 1 == 0 {
        let offset = s.ir1 & 0x01FE;
        let t = CopperState { state: CopperExecState::FetchFirst, ..s };
        if offset < SAFE_REG_MIN && !s.danger {
            (t, None)
        } else {
            (t, Some(CopperAction::WriteRegister { offset, value: s.ir2 }))
        }
    } else {
        let met = spec_beam_condition(s.ir1, s.ir2, vpos, hpos);
        if s.ir2 & 1 != 0 {
            (CopperState {
                state: CopperExecState::FetchFirst,
                pc: if met { vstd::wrapping::u32_specs::wrapping_add(s.pc, 4) } else { s.pc },
                ..s
            }, None)
        } else if met {
            (CopperState { state: CopperExecState::FetchFirst, ..s }, None)
        } else {
            (s, None)
        }
    }
}

/// Result of one Copper DMA cycle.
pub open spec fn spec_cycle(s: CopperState, ram: Seq<u8>, vpos: u16, hpos: u16) -> (CopperState, Option<CopperAction>) {
    if !s.enabled {
        (s, None)
    } else {
        match s.state {
            CopperExecState::Idle => (s, None),
            CopperExecState::FetchFirst => (CopperState {
                ir1: spec_chip_word(ram, s.pc),
                pc: vstd::wrapping::u32_specs::wrapping_add(s.pc, 2),
                state: CopperExecState::FetchSecond,
                ..s
            }, None),
            CopperExecState::FetchSecond => (CopperState {
                ir2: spec_chip_word(ram, s.pc),
                pc: vstd::wrapping::u32_specs::wrapping_add(s.pc, 2),
                state: CopperExecState::Execute,
                ..s
            }, None),
            CopperExecState::Execute => spec_execute(s, vpos, hpos),
        }
    }
}

impl Default for CopperState {
    fn default() -> (r: Self)
        ensures
            r.cop1lc == 0 && r.cop2lc == 0 && r.pc == 0 && r.ir1 == 0 && r.ir2 == 0,
            r.state == CopperExecState::Idle && !r.enabled && !r.danger,
    {
        Self::new()
    }
}

impl CopperState {
    /// Create a new Copper in its initial (idle) state.
    pub fn new() -> (r: Self)
        ensures
            r.cop1lc == 0 && r.cop2lc == 0 && r.pc == 0 && r.ir1 == 0 && r.ir2 == 0,
            r.state == CopperExecState::Idle && !r.enabled && !r.danger,
    {
        Self {
            cop1lc: 0,
            cop2lc: 0,
            pc: 0,
            ir1: 0,
            ir2: 0,
            state: CopperExecState::Idle,
            enabled: false,
            danger: false,
        }
    }

    /// Reset the Copper to its initial state, loading PC from `cop1lc`.
    pub fn reset(&mut self)
        ensures
            *final(self) == (CopperState {
                pc: old(self).cop1lc,
                ir1: 0,
                ir2: 0,
                state: CopperExecState::FetchFirst,
                ..*old(self)
            }),
    {
        self.pc = self.cop1lc;
        self.ir1 = 0;
        self.ir2 = 0;
        self.state = CopperExecState::FetchFirst;
    }

    /// Called on vertical blank — restarts execution from `cop1lc`.
    pub fn restart_vertical_blank(&mut self)
        ensures
            *final(self) == (CopperState {
                pc: old(self).cop1lc,
                ir1: 0,
                ir2: 0,
                state: CopperExecState::FetchFirst,
                ..*old(self)
            }),
    {
        self.pc = self.cop1lc;
        self.ir1 = 0;
        self.ir2 = 0;
        self.state = CopperExecState::FetchFirst;
    }

    /// Set the Copper list 1 address from high and low words.
    pub fn set_cop1lc(&mut self, high: u16, low: u16)
        ensures
            *final(self) == (CopperState { cop1lc: ((high as u32) * 0x10000 + low as u32) as u32, ..*old(self) }),
    {
        self.cop1lc = ((high as u32) << 16) | (low as u32);
        proof {
            lemma_join_words(high, low);
        }
    }

    /// Set the Copper list 2 address from high and low words.
    pub fn set_cop2lc(&mut self, high: u16, low: u16)
        ensures
            *final(self) == (CopperState { cop2lc: ((high as u32) * 0x10000 + low as u32) as u32, ..*old(self) }),
    {
        self.cop2lc = ((high as u32) << 16) | (low as u32);
        proof {
            lemma_join_words(high, low);
        }
    }

    /// Strobe: restart execution from `cop1lc`.
    pub fn strobe_cop1(&mut self)
        ensures
            *final(self) == (CopperState { pc: old(self).cop1lc, state: CopperExecState::FetchFirst, ..*old(self) }),
    {
        self.pc = self.cop1lc;
        self.state = CopperExecState::FetchFirst;
    }

    /// Strobe: restart execution from `cop2lc`.
    pub fn strobe_cop2(&mut self)
        ensures
            *final(self) == (CopperState { pc: old(self).cop2lc, state: CopperExecState::FetchFirst, ..*old(self) }),
    {
        self.pc = self.cop2lc;
        self.state = CopperExecState::FetchFirst;
    }

    /// Execute one Copper DMA cycle.
    ///
    /// Reads instruction words directly from `chip_ram`. Returns a
    /// [`CopperAction`] when the Copper wants to write a custom register.
    pub fn cycle(&mut self, chip_ram: &[u8], vpos: u16, hpos: u16) -> (r: Option<CopperAction>)
        ensures
            (*final(self), r) == spec_cycle(*old(self), chip_ram@, vpos, hpos),
    {
        if !self.enabled {
            return None;
        }
        match self.state {
            CopperExecState::Idle => None,
            CopperExecState::FetchFirst => {
                self.ir1 = self.read_word(chip_ram);
                self.pc = self.pc.wrapping_add(2);
                self.state = CopperExecState::FetchSecond;
                None
            },
            CopperExecState::FetchSecond => {
                self.ir2 = self.read_word(chip_ram);
                self.pc = self.pc.wrapping_add(2);
                self.state = CopperExecState::Execute;
                None
            },
            CopperExecState::Execute => self.execute(vpos, hpos),
        }
    }

    /// Read a big-endian word from chip RAM at the current PC.
    fn read_word(&self, chip_ram: &[u8]) -> (r: u16)
        ensures
            r == spec_chip_word(chip_ram@, self.pc),
    {
        if chip_ram.len() == 0 {
            return 0;
        }
        let addr = (self.pc as usize) % chip_ram.len();
        if addr + 1 < chip_ram.len() {
            (chip_ram[addr] as u16) * 256 + (chip_ram[addr + 1] as u16)
        } else {
            0
        }
    }

    /// Execute the decoded instruction pair (IR1/IR2).
    fn execute(&mut self, vpos: u16, hpos: u16) -> (r: Option<CopperAction>)
        ensures
            (*final(self), r) == spec_execute(*old(self), vpos, hpos),
    {
        if self.ir1 == 0 && self.ir2 == 0 {
            self.state = CopperExecState::Idle;
            return None;
        }
        if self.ir1 == END_OF_LIST_IR1 && self.ir2 == END_OF_LIST_IR2 {
            return None;
        }
        if self.ir1 & 1 == 0 {
            self.state = CopperExecState::FetchFirst;
            let offset = self.ir1 & 0x01FE;
            if offset < SAFE_REG_MIN && !self.danger {
                return None;
            }
            Some(CopperAction::WriteRegister { offset, value: self.ir2 })
        } else {
            let target_v = (self.ir1 >> 8) & 0xFF;
            let target_h = (self.ir1 >> 1) & 0x7F;
            let vmask = (self.ir2 >> 8) | 0x80;
            let hmask = (self.ir2 >> 1) & 0x7F;
            let is_skip = self.ir2 & 1 != 0;
            let beam_v = vpos & vmask;
            let wait_v = target_v & vmask;
            let condition_met = beam_v > wait_v || (beam_v == wait_v && (hpos & hmask) >= (target_h & hmask));
            if is_skip {
                self.state = CopperExecState::FetchFirst;
                if condition_met {
                    self.pc = self.pc.wrapping_add(4);
                }
            } else if condition_met {
                self.state = CopperExecState::FetchFirst;
            }
            None
        }
    }
}

proof fn lemma_join_words(high: u16, low: u16)
    ensures
        ((high as u32) << 16u32) | (low as u32) == (high as u32) * 0x10000 + low as u32,
{
    assert(((high as u32) << 16u32) | (low as u32) == (high as u32) * 0x10000 + low as u32) by (bit_vector);
}

/// A MOVE emits exactly one register write, of its second word to the even
/// register offset in its first word, unless the register is protected and the
/// danger bit is clear; either way the Copper goes on to the next instruction.
pub proof fn law_move_writes_register(s: CopperState, vpos: u16, hpos: u16)
    requires
        s.ir1 & 1 == 0,
        !(s.ir1 == 0 && s.ir2 == 0),
    ensures
        spec_execute(s, vpos, hpos).0.state == CopperExecState::FetchFirst,
        spec_execute(s, vpos, hpos).1 == (if (s.ir1 & 0x01FE) < SAFE_REG_MIN && !s.danger {
            None
        } else {
            Some(CopperAction::WriteRegister { offset: s.ir1 & 0x01FE, value: s.ir2 })
        }),
{
    let w = s.ir1;
    assert(w & 1 == 0 ==> w != 0xFFFF) by (bit_vector);
}

/// A WAIT whose beam condition does not hold leaves the Copper unchanged: it
/// keeps waiting and emits nothing.
pub proof fn law_wait_holds_until_beam(s: CopperState, vpos: u16, hpos: u16)
    requires
        s.ir1 & 1 != 0,
        s.ir2 & 1 == 0,
        !spec_beam_condition(s.ir1, s.ir2, vpos, hpos),
    ensures
        spec_execute(s, vpos, hpos) == (s, None::<CopperAction>),
{
    let w = s.ir1;
    assert(w & 1 != 0 ==> w != 0) by (bit_vector);
}

/// The end-of-list WAIT `$FFFF,$FFFE` never completes: a Copper executing
/// it stays waiting, at the same PC, and writes nothing, wherever the beam is.
pub proof fn law_end_of_list_never_completes(s: CopperState, ram: Seq<u8>, vpos: u16, hpos: u16)
    requires
        s.enabled,
        s.state == CopperExecState::Execute,
        s.ir1 == END_OF_LIST_IR1,
        s.ir2 == END_OF_LIST_IR2,
    ensures
        spec_cycle(s, ram, vpos, hpos) == (s, None::<CopperAction>),
{
}

/// A disabled Copper never changes and never writes a register.
pub proof fn law_disabled_copper_is_inert(s: CopperState, ram: Seq<u8>, vpos: u16, hpos: u16)
    requires
        !s.enabled,
    ensures
        spec_cycle(s, ram, vpos, hpos) == (s, None::<CopperAction>),
{
}

} // verus!
