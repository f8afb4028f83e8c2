use rumiga::events::{EventScheduler, EventType, CYCLES_PER_SCANLINE, SCANLINES_NTSC, SCANLINES_PAL};

#[test]
fn schedule_and_fire() {
    let mut sched = EventScheduler::new();
    sched.schedule(EventType::HSync, 10);
    assert!(sched.is_pending(EventType::HSync));

    sched.advance(9);
    let fired = sched.check_and_fire();
    assert!(fired.is_empty());

    sched.advance(1);
    let fired = sched.check_and_fire();
    assert!(fired.contains(EventType::HSync));
    assert!(!sched.is_pending(EventType::HSync));
}

#[test]
fn multiple_events_fire_together() {
    let mut sched = EventScheduler::new();
    sched.schedule(EventType::HSync, 5);
    sched.schedule(EventType::Copper, 5);
    sched.advance(5);
    let fired = sched.check_and_fire();
    assert!(fired.contains(EventType::HSync));
    assert!(fired.contains(EventType::Copper));
    assert!(!fired.contains(EventType::Blitter));
}

#[test]
fn cancel_event() {
    let mut sched = EventScheduler::new();
    sched.schedule(EventType::Cia, 100);
    assert!(sched.is_pending(EventType::Cia));
    sched.cancel(EventType::Cia);
    assert!(!sched.is_pending(EventType::Cia));
    sched.advance(100);
    let fired = sched.check_and_fire();
    assert!(fired.is_empty());
}

#[test]
fn scanline_timing_constants() {
    assert_eq!(CYCLES_PER_SCANLINE, 227);
    assert_eq!(SCANLINES_PAL, 312);
    assert_eq!(SCANLINES_NTSC, 262);
    assert_eq!(CYCLES_PER_SCANLINE * SCANLINES_PAL, 70_824);
}

#[test]
fn event_fires_exactly_at_trigger() {
    let mut sched = EventScheduler::new();
    sched.schedule(EventType::VSync, CYCLES_PER_SCANLINE * SCANLINES_PAL);
    sched.advance(CYCLES_PER_SCANLINE * SCANLINES_PAL - 1);
    assert!(sched.check_and_fire().is_empty());
    sched.advance(1);
    let fired = sched.check_and_fire();
    assert!(fired.contains(EventType::VSync));
}

#[test]
fn current_cycle_accumulates_advances() {
    let mut sched = EventScheduler::new();
    assert_eq!(sched.current_cycle(), 0);
    sched.advance(7);
    sched.advance(3);
    assert_eq!(sched.current_cycle(), 10);
    sched.schedule(EventType::Blitter, 5);
    sched.advance(4);
    assert!(sched.check_and_fire().is_empty());
    assert!(sched.is_pending(EventType::Blitter));
}
