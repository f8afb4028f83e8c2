use rumiga::chipset::{CustomChipState, HPOS_MAX};
use rumiga::custom;
use rumiga::video::VideoStandard;

#[test]
fn dmacon_enable_disable() {
    let mut state = CustomChipState::new(VideoStandard::Pal);
    state.write_register(
        custom::DMACON,
        0x8000 | custom::DMA_MASTER | custom::DMA_BITPLANE,
    );
    assert!(state.dmaen(custom::DMA_BITPLANE));
    assert!(!state.dmaen(custom::DMA_COPPER));

    state.write_register(custom::DMACON, custom::DMA_MASTER);
    assert!(!state.dmaen(custom::DMA_BITPLANE));
}

#[test]
fn intreq_intena_interrupt_level() {
    let mut state = CustomChipState::new(VideoStandard::Pal);
    state.write_register(custom::INTENA, 0x8000 | custom::INT_VERTB);
    state.write_register(custom::INTREQ, 0x8000 | custom::INT_VERTB);
    assert_eq!(state.interrupt_level(), 3);

    state.write_register(custom::INTENA, 0x8000 | custom::INT_EXTER);
    state.write_register(custom::INTREQ, 0x8000 | custom::INT_EXTER);
    assert_eq!(state.interrupt_level(), 6);

    state.write_register(custom::INTREQ, custom::INT_EXTER);
    assert_eq!(state.interrupt_level(), 3);
}

#[test]
fn master_enable_bit_alone_is_no_interrupt() {
    let mut state = CustomChipState::new(VideoStandard::Pal);
    state.intena = 0x4000;
    state.intreq = 0x4000;
    assert_eq!(state.interrupt_level(), 0);
    state.intreq = 0x4000 | custom::INT_SOFT;
    state.intena = 0x4000 | custom::INT_SOFT;
    assert_eq!(state.interrupt_level(), 1);
}

#[test]
fn no_pending_interrupts_returns_zero() {
    let state = CustomChipState::new(VideoStandard::Pal);
    assert_eq!(state.interrupt_level(), 0);
}

#[test]
fn beam_position_wraps() {
    let mut state = CustomChipState::new(VideoStandard::Pal);
    state.hpos = HPOS_MAX;
    state.vpos = 100;
    let vblank = state.advance_beam();
    assert!(!vblank);
    assert_eq!(state.hpos, 0);
    assert_eq!(state.vpos, 101);
}

#[test]
fn beam_position_vertical_wrap() {
    let mut state = CustomChipState::new(VideoStandard::Pal);
    state.hpos = HPOS_MAX;
    state.vpos = VideoStandard::Pal.last_line();
    let vblank = state.advance_beam();
    assert!(vblank);
    assert_eq!(state.hpos, 0);
    assert_eq!(state.vpos, 0);
}

#[test]
fn color_register_write_read() {
    let mut state = CustomChipState::new(VideoStandard::Pal);
    state.write_register(custom::COLOR00, 0x0F00);
    assert_eq!(state.read_register(custom::COLOR00), 0x0F00);
    state.write_register(custom::COLOR31, 0x0ABC);
    assert_eq!(state.read_register(custom::COLOR31), 0x0ABC);
}

#[test]
fn beamcon0_reports_pal_timing() {
    let state = CustomChipState::new(VideoStandard::Pal);
    assert_eq!(state.read_register(custom::BEAMCON0), custom::BEAMCON0_PAL);
}

#[test]
fn color_writes_keep_twelve_bits() {
    let mut state = CustomChipState::new(VideoStandard::Ntsc);
    state.write_register(custom::COLOR00 + 2, 0xFABC);
    assert_eq!(state.read_register(custom::COLOR00 + 2), 0x0ABC);
    assert_eq!(state.read_register(custom::BEAMCON0), 0);
}

#[test]
fn ntsc_beam_wraps_after_line_261() {
    let mut state = CustomChipState::new(VideoStandard::Ntsc);
    state.hpos = HPOS_MAX;
    state.vpos = 261;
    assert!(state.advance_beam());
    assert_eq!(state.vpos, 0);
}
