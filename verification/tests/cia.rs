use rumiga::cia::{
    CiaPair, CiaState, CR_LOAD, CR_ONESHOT, CR_START, ICR_SET, ICR_TA, ICR_TB, REG_CRA, REG_DDRA,
    REG_ICR, REG_PRA, REG_SDR, REG_TAHI, REG_TALO,
};

#[test]
fn timer_a_countdown_and_underflow() {
    let mut cia = CiaState::new();
    cia.write(REG_TALO, 3);
    cia.write(REG_TAHI, 0);
    cia.write(REG_ICR, ICR_SET | ICR_TA);
    cia.write(REG_CRA, CR_START);

    assert!(!cia.tick());
    assert!(!cia.tick());
    assert!(!cia.tick());
    assert!(cia.tick());
    assert_eq!(cia.timer_a, 3);
}

#[test]
fn one_shot_stops_after_underflow() {
    let mut cia = CiaState::new();
    cia.write(REG_TALO, 1);
    cia.write(REG_TAHI, 0);
    cia.write(REG_CRA, CR_START | CR_ONESHOT);

    cia.tick();
    cia.tick();
    assert_eq!(cia.cra & CR_START, 0);
    let val = cia.timer_a;
    cia.tick();
    assert_eq!(cia.timer_a, val);
}

#[test]
fn icr_mask_enable_disable() {
    let mut cia = CiaState::new();
    cia.write(REG_ICR, ICR_SET | ICR_TA);
    assert_eq!(cia.icr_mask & ICR_TA, ICR_TA);
    cia.write(REG_ICR, ICR_TA);
    assert_eq!(cia.icr_mask & ICR_TA, 0);
}

#[test]
fn icr_read_clears_pending() {
    let mut cia = CiaState::new();
    cia.icr_data = ICR_TA | ICR_TB;
    let val = cia.read(REG_ICR);
    assert_eq!(val, ICR_TA | ICR_TB);
    assert_eq!(cia.icr_data, 0);
}

#[test]
fn tod_counter_increments() {
    let mut cia = CiaState::new();
    for _ in 0..256 {
        cia.tick_tod();
    }
    assert_eq!(cia.tod[0], 0);
    assert_eq!(cia.tod[1], 1);
}

#[test]
fn register_read_write_roundtrip() {
    let mut cia = CiaState::new();
    cia.write(REG_PRA, 0xAB);
    assert_eq!(cia.read(REG_PRA), 0xAB);
    cia.write(REG_DDRA, 0xCD);
    assert_eq!(cia.read(REG_DDRA), 0xCD);
    cia.write(REG_SDR, 0x42);
    assert_eq!(cia.read(REG_SDR), 0x42);
}

#[test]
fn interrupt_line_follows_enabled_underflow() {
    let mut cia = CiaState::new();
    cia.write(REG_TALO, 0);
    cia.write(REG_TAHI, 0);
    cia.write(REG_ICR, ICR_SET | ICR_TA);
    cia.write(REG_CRA, CR_START | CR_LOAD);
    assert!(!cia.irq_pending());
    assert!(cia.tick());
    assert!(cia.irq_pending());
    let pending = cia.read(REG_ICR);
    assert_eq!(pending & 0x7F, ICR_TA);
    assert!(!cia.irq_pending());
}

#[test]
fn tod_counter_wraps_at_24_bits() {
    let mut cia = CiaState::new();
    cia.tod = [0xFF, 0xFF, 0xFF];
    cia.tick_tod();
    assert_eq!(cia.tod, [0, 0, 0]);
}

#[test]
fn pair_starts_in_reset_state() {
    let pair = CiaPair::new();
    assert_eq!(pair.cia_a.prb, 0xFF);
    assert_eq!(pair.cia_b.timer_a, 0xFFFF);
    assert_eq!(pair.cia_b.icr_mask, 0);
}

#[test]
fn start_writes_count_cra_writes_that_start_timer_a() {
    let mut c = CiaState::new();
    assert_eq!(c.timer_a_stats.start_writes, 0);
    c.write(rumiga::cia::REG_CRA, 0x01);
    c.write(rumiga::cia::REG_CRA, 0x00);
    c.write(rumiga::cia::REG_CRA, 0x11);
    assert_eq!(c.timer_a_stats.start_writes, 2);
}
