//! Cycle-accurate event scheduler for the Amiga timing engine.
//!
//! Uses a fixed-size array of event slots, one per event type, so the
//! scheduler itself never allocates.

use vstd::prelude::*;

verus! {

/// Color clocks per scanline (PAL and NTSC).
pub const CYCLES_PER_SCANLINE: u64 = 227;

/// Total scanlines per frame (PAL).
pub const SCANLINES_PAL: u64 = 312;

/// Total scanlines per frame (NTSC).
pub const SCANLINES_NTSC: u64 = 262;

/// PAL colour clock in hertz.
pub const COLOUR_CLOCK_PAL_HZ: u64 = 3_546_895;

/// NTSC colour clock in hertz.
pub const COLOUR_CLOCK_NTSC_HZ: u64 = 3_579_545;

/// Number of event slots (one per event type).
pub const EVENT_SLOTS: usize = 7;

/// Types of scheduled events.
#[derive(Clone, Copy, Debug, PartialEq, Eq, Structural)]
pub enum EventType {
    /// Horizontal sync (end of scanline).
    HSync,
    /// Vertical sync (end of frame).
    VSync,
    /// CIA timer event.
    Cia,
    /// Audio DMA event.
    Audio,
    /// Blitter completion event.
    Blitter,
    /// Copper event.
    Copper,
    /// Miscellaneous event.
    Misc,
}

/// Slot index of an event type.
pub open spec fn event_index(e: EventType) -> int {
    match e {
        EventType::HSync => 0,
        EventType::VSync => 1,
        EventType::Cia => 2,
        EventType::Audio => 3,
        EventType::Blitter => 4,
        EventType::Copper => 5,
        EventType::Misc => 6,
    }
}

impl EventType {
    /// Slot index of this event type.
    pub fn index(self) -> (r: usize)
        ensures
            r == event_index(self),
            r < EVENT_SLOTS,
    {
        match self {
            EventType::HSync => 0,
            EventType::VSync => 1,
            EventType::Cia => 2,
            EventType::Audio => 3,
            EventType::Blitter => 4,
            EventType::Copper => 5,
            EventType::Misc => 6,
        }
    }
}

/// A single event slot.
#[derive(Clone, Copy, Debug)]
pub struct EventSlot {
    /// Whether this event is pending.
    pub active: bool,
    /// Absolute cycle at which this event fires.
    pub trigger_cycle: u64,
}

/// Fixed-size cycle-accurate event scheduler.
#[derive(Clone, Debug)]
pub struct EventScheduler {
    /// Current cycle counter.
    current_cycle: u64,
    /// Event slots indexed by `EventType`.
    slots: [EventSlot; EVENT_SLOTS],
}

/// Abstract state of the scheduler: the cycle counter and, per slot, whether the
/// event is pending and when it fires.
pub struct SchedulerView {
    pub cycle: int,
    pub active: Seq<bool>,
    pub trigger: Seq<int>,
}

/// The scheduler state after scheduling slot `i` to fire `delay` cycles from now.
pub open spec fn spec_schedule(s: SchedulerView, i: int, delay: int) -> SchedulerView {
    SchedulerView {
        cycle: s.cycle,
        active: s.active.update(i, true),
        trigger: s.trigger.update(i, s.cycle + delay),
    }
}

/// The scheduler state after cancelling slot `i`.
pub open spec fn spec_cancel(s: SchedulerView, i: int) -> SchedulerView {
    SchedulerView { cycle: s.cycle, active: s.active.update(i, false), trigger: s.trigger }
}

/// The scheduler state after `cycles` colour clocks.
pub open spec fn spec_advance(s: SchedulerView, cycles: int) -> SchedulerView {
    SchedulerView { cycle: s.cycle + cycles, active: s.active, trigger: s.trigger }
}

/// Whether slot `i` is due: pending and its trigger cycle has been reached.
pub open spec fn spec_due(s: SchedulerView, i: int) -> bool {
    s.active[i] && s.cycle >= s.trigger[i]
}

/// The scheduler state after firing every due event.
pub open spec fn spec_fire(s: SchedulerView) -> SchedulerView {
    SchedulerView {
        cycle: s.cycle,
        active: Seq::new(s.active.len(), |i: int| s.active[i] && !spec_due(s, i)),
        trigger: s.trigger,
    }
}

impl View for EventScheduler {
    type V = SchedulerView;

    closed spec fn view(&self) -> SchedulerView {
        SchedulerView {
            cycle: self.current_cycle as int,
            active: Seq::new(EVENT_SLOTS as nat, |i: int| self.slots@[i].active),
            trigger: Seq::new(EVENT_SLOTS as nat, |i: int| self.slots@[i].trigger_cycle as int),
        }
    }
}

impl EventScheduler {
    /// Create a new scheduler with no pending events.
    pub fn new() -> (r: Self)
        ensures
            r@.cycle == 0,
            r@.active.len() == EVENT_SLOTS,
            forall|i: int| 0 <= i < EVENT_SLOTS ==> !r@.active[i],
            r@.trigger.len() == EVENT_SLOTS,
            forall|i: int| 0 <= i < EVENT_SLOTS ==> r@.trigger[i] == 0,
    {
        let slot = EventSlot { active: false, trigger_cycle: 0 };
        Self { current_cycle: 0, slots: [slot, slot, slot, slot, slot, slot, slot] }
    }

    /// Current cycle count.
    pub fn current_cycle(&self) -> (r: u64)
        ensures
            r == self@.cycle,
    {
        self.current_cycle
    }

    /// Schedule an event to fire after `cycles_from_now` color clocks.
    pub fn schedule(&mut self, event_type: EventType, cycles_from_now: u64)
        requires
            old(self)@.cycle + cycles_from_now <= u64::MAX,
        ensures
            final(self)@ == spec_schedule(old(self)@, event_index(event_type), cycles_from_now as int),
    {
        let i = event_type.index();
        let slot = EventSlot { active: true, trigger_cycle: self.current_cycle + cycles_from_now };
        self.slots[i] = slot;
        assert(self@.active =~= spec_schedule(old(self)@, i as int, cycles_from_now as int).active);
        assert(self@.trigger =~= spec_schedule(old(self)@, i as int, cycles_from_now as int).trigger);
    }

    /// Cancel a pending event.
    pub fn cancel(&mut self, event_type: EventType)
        ensures
            final(self)@ == spec_cancel(old(self)@, event_index(event_type)),
    {
        let i = event_type.index();
        let slot = EventSlot { active: false, trigger_cycle: self.slots[i].trigger_cycle };
        self.slots[i] = slot;
        assert(self@.active =~= spec_cancel(old(self)@, i as int).active);
        assert(self@.trigger =~= old(self)@.trigger);
    }

    /// Advance the scheduler by `cycles` color clocks.
    pub fn advance(&mut self, cycles: u64)
        requires
            old(self)@.cycle + cycles <= u64::MAX,
        ensures
            final(self)@ == spec_advance(old(self)@, cycles as int),
    {
        self.current_cycle = self.current_cycle + cycles;
        assert(self@.active =~= old(self)@.active);
        assert(self@.trigger =~= old(self)@.trigger);
    }

    /// Check for and collect all events whose trigger cycle has been reached.
    ///
    /// Returns fired event types. Fired events are deactivated.
    pub fn check_and_fire(&mut self) -> (fired: FiredEvents)
        ensures
            final(self)@ == spec_fire(old(self)@),
            forall|i: int| 0 <= i < EVENT_SLOTS ==> (#[trigger] fired.fired(i) <==> spec_due(old(self)@, i)),
            forall|i: int| EVENT_SLOTS <= i < 8 ==> !fired.fired(i),
            forall|i: int| !(0 <= i < 8) ==> !fired.fired(i),
    {
        let mut fired = FiredEvents::new();
        let mut i: usize = 0;
        while i < EVENT_SLOTS
            invariant
                0 <= i <= EVENT_SLOTS,
                self.current_cycle == old(self).current_cycle,
                forall|j: int| 0 <= j < EVENT_SLOTS ==> self.slots@[j].trigger_cycle == old(self).slots@[j].trigger_cycle,
                forall|j: int| i <= j < EVENT_SLOTS ==> self.slots@[j].active == old(self).slots@[j].active,
                forall|j: int| 0 <= j < i ==> self.slots@[j].active == (old(self).slots@[j].active && !(old(self).current_cycle >= old(self).slots@[j].trigger_cycle)),
                forall|j: int| 0 <= j < i ==> (fired.fired(j) <==> (old(self).slots@[j].active && old(self).current_cycle >= old(self).slots@[j].trigger_cycle)),
                forall|j: int| i <= j < 8 ==> !fired.fired(j),
            decreases EVENT_SLOTS - i,
        {
            let slot = self.slots[i];
            let ghost prev = self.slots@;
            proof {
                assert(old(self)@.active[i as int] == old(self).slots@[i as int].active);
                assert(old(self)@.trigger[i as int] == old(self).slots@[i as int].trigger_cycle);
                assert(old(self)@.cycle == old(self).current_cycle);
            }
            if slot.active && self.current_cycle >= slot.trigger_cycle {
                self.slots[i] = EventSlot { active: false, trigger_cycle: slot.trigger_cycle };
                fired.add(i);
            }
            assert(forall|j: int| 0 <= j < EVENT_SLOTS && j != i ==> self.slots@[j] == prev[j]);
            i = i + 1;
        }
        assert forall|j: int| 0 <= j < EVENT_SLOTS implies self@.active[j] == spec_fire(old(self)@).active[j] by {
            assert(old(self)@.active[j] == old(self).slots@[j].active);
            assert(old(self)@.trigger[j] == old(self).slots@[j].trigger_cycle);
        }
        assert forall|j: int| 0 <= j < EVENT_SLOTS implies (fired.fired(j) <==> spec_due(old(self)@, j)) by {
            assert(old(self)@.active[j] == old(self).slots@[j].active);
            assert(old(self)@.trigger[j] == old(self).slots@[j].trigger_cycle);
        }
        assert(self@.active =~= spec_fire(old(self)@).active);
        assert(self@.trigger =~= old(self)@.trigger);
        fired
    }

    /// Check if a specific event is pending.
    pub fn is_pending(&self, event_type: EventType) -> (r: bool)
        ensures
            r == self@.active[event_index(event_type)],
    {
        self.slots[event_type.index()].active
    }
}

impl Default for EventScheduler {
    fn default() -> (r: Self)
        ensures
            r@.cycle == 0,
            forall|i: int| 0 <= i < EVENT_SLOTS ==> !r@.active[i],
    {
        Self::new()
    }
}

/// Collection of fired events from a single `check_and_fire` call.
#[derive(Clone, Debug)]
pub struct FiredEvents {
    /// Bitmask of fired event type indices.
    mask: u8,
}

/// Whether bit `i` of `mask` is set.
pub open spec fn mask_bit(mask: u8, i: int) -> bool {
    (mask >> (i as u8)) & 1 == 1
}

impl FiredEvents {
    /// Whether the event in slot `i` fired.
    pub closed spec fn fired(&self, i: int) -> bool {
        0 <= i < 8 && mask_bit(self.mask, i)
    }

    fn new() -> (r: Self)
        ensures
            forall|i: int| !r.fired(i),
    {
        let r = Self { mask: 0 };
        assert forall|i: int| 0 <= i < 8 implies !mask_bit(0u8, i) by {
            let k = i as u8;
            assert((0u8 >> k) & 1 == 0) by (bit_vector);
        }
        r
    }

    fn add(&mut self, index: usize)
        requires
            index < 8,
        ensures
            forall|i: int| (#[trigger] final(self).fired(i)) == (old(self).fired(i) || i == index),
    {
        let old_mask = self.mask;
        let k = index as u8;
        self.mask = self.mask | (1u8 << k);
        assert forall|i: int| 0 <= i < 8 implies mask_bit(self.mask, i) == (mask_bit(old_mask, i) || i == index) by {
            let j = i as u8;
            let m = old_mask;
            assert(k < 8 && j < 8 ==> (((m | (1u8 << k)) >> j) & 1 == 1) == (((m >> j) & 1 == 1) || j == k)) by (bit_vector);
        }
    }

    /// Check if a specific event type fired.
    pub fn contains(&self, event_type: EventType) -> (r: bool)
        ensures
            r == self.fired(event_index(event_type)),
    {
        let k = event_type.index() as u8;
        let m = self.mask;
        assert(k < 8 ==> ((m & (1u8 << k) != 0) == ((m >> k) & 1 == 1))) by (bit_vector);
        self.mask & (1u8 << k) != 0
    }

    /// Returns true if no events fired.
    pub fn is_empty(&self) -> (r: bool)
        ensures
            r == (forall|i: int| !self.fired(i)),
    {
        let m = self.mask;
        if m == 0 {
            assert forall|i: int| 0 <= i < 8 implies !mask_bit(m, i) by {
                let j = i as u8;
                assert(m == 0 ==> (m >> j) & 1 == 0) by (bit_vector);
            }
        } else {
            assert(m != 0 ==> ((m >> 0u8) & 1 == 1 || (m >> 1u8) & 1 == 1 || (m >> 2u8) & 1 == 1
                || (m >> 3u8) & 1 == 1 || (m >> 4u8) & 1 == 1 || (m >> 5u8) & 1 == 1
                || (m >> 6u8) & 1 == 1 || (m >> 7u8) & 1 == 1)) by (bit_vector);
            assert(self.fired(0) || self.fired(1) || self.fired(2) || self.fired(3) || self.fired(4)
                || self.fired(5) || self.fired(6) || self.fired(7));
        }
        m == 0
    }
}

/// An event scheduled `delay` cycles ahead fires on the first check at or after
/// that many cycles have passed, and not before.
pub proof fn law_event_fires_exactly_at_trigger(s: SchedulerView, e: EventType, delay: int, elapsed: int)
    requires
        s.active.len() == EVENT_SLOTS,
        s.trigger.len() == EVENT_SLOTS,
        0 <= delay,
        0 <= elapsed,
    ensures
        spec_due(spec_advance(spec_schedule(s, event_index(e), delay), elapsed), event_index(e))
            <==> elapsed >= delay,
{
}

/// Firing deactivates exactly the due events and leaves the cycle counter alone;
/// firing twice in a row fires nothing the second time.
pub proof fn law_fire_is_idempotent(s: SchedulerView)
    requires
        s.active.len() == EVENT_SLOTS,
        s.trigger.len() == EVENT_SLOTS,
    ensures
        forall|i: int| 0 <= i < EVENT_SLOTS ==> !spec_due(spec_fire(s), i),
        spec_fire(spec_fire(s)) == spec_fire(s),
{
    assert(spec_fire(spec_fire(s)).active =~= spec_fire(s).active);
}

/// A cancelled event never fires, however far the scheduler advances.
pub proof fn law_cancelled_event_never_fires(s: SchedulerView, e: EventType, elapsed: int)
    requires
        s.active.len() == EVENT_SLOTS,
        s.trigger.len() == EVENT_SLOTS,
        0 <= elapsed,
    ensures
        !spec_due(spec_advance(spec_cancel(s, event_index(e)), elapsed), event_index(e)),
{
}

} // verus!
