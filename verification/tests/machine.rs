use rumiga::blitter::BlitterState;
use rumiga::chipset::CustomChipState;
use rumiga::cia::CiaPair;
use rumiga::copper::{CopperExecState, CopperState};
use rumiga::custom;
use rumiga::emulator::{KeyboardState, MouseState, KEYBOARD_DELAY_FRAMES};
use rumiga::floppy::FloppyController;
use rumiga::machine::{LineMachine, FORCE_CIA_TIMER_THRESHOLD};
use rumiga::playfield::PlayfieldState;
use rumiga::registers::CustomChips;
use rumiga::sprites::SpriteEngine;
use rumiga::video::VideoStandard;

fn machine() -> LineMachine {
    LineMachine {
        chips: CustomChips {
            chipset: CustomChipState::new(VideoStandard::Pal),
            copper: CopperState::new(),
            playfield: PlayfieldState::new(),
            sprites: SpriteEngine::new(),
            blitter: BlitterState::new(),
        },
        floppy: FloppyController::new(),
        keyboard: KeyboardState::new(),
        mouse: MouseState::new(),
        regs: [0u16; 256],
        cia: CiaPair::new(),
        chip_ram: vec![0u8; 1024],
        slow_ram: vec![],
        rom: vec![],
        disk_status: 0xFF,
        dskbytr: 0,
        total_cycles: 0,
        gfxbase_cache: 0,
        forced_cia_timer_starts: 0,
        frame_ready: false,
    }
}

#[test]
fn the_last_line_ends_the_frame() {
    let mut m = machine();
    m.chips.chipset.vpos = 311;
    m.chips.copper.cop1lc = 0x200;
    m.chips.copper.pc = 0x300;
    m.mouse.mouse_move(5, -3);
    let mut line = vec![0u16; 8];
    m.run_line(&mut line);
    assert_eq!(m.chips.chipset.vpos, 0);
    assert!(m.frame_ready);
    assert_eq!(m.chips.copper.pc, 0x200);
    assert_eq!(m.chips.copper.state, CopperExecState::FetchFirst);
    assert_eq!(m.mouse.dx, 0);
    assert_eq!(m.mouse.dy, 0);
    assert_eq!(m.regs[(custom::INTREQR / 2) as usize], m.chips.chipset.intreq);
    assert_eq!(m.regs[(custom::INTENAR / 2) as usize], m.chips.chipset.intena);
    assert_ne!(m.chips.chipset.intreq & custom::INT_VERTB, 0);
    assert_eq!(m.chip_ram.len(), 1024);
    assert_eq!(m.forced_cia_timer_starts, 0);
}

#[test]
fn a_line_inside_the_frame_does_no_frame_housekeeping() {
    let mut m = machine();
    m.chips.chipset.vpos = 40;
    m.mouse.mouse_move(5, -3);
    let mut line = vec![0u16; 8];
    m.run_line(&mut line);
    assert_eq!(m.chips.chipset.vpos, 41);
    assert!(!m.frame_ready);
    assert_eq!(m.mouse.dx, 5);
    assert_eq!(m.mouse.dy, -3);
}

#[test]
fn a_queued_key_reaches_the_cia_serial_register() {
    let mut m = machine();
    m.chips.chipset.vpos = 40;
    m.keyboard.key_event(0x45, true);
    let mut line = vec![0u16; 8];
    m.run_line(&mut line);
    // 0x45 rotated left is 0x8A; the line is active low.
    assert_eq!(m.cia.cia_a.sdr, 0x75);
    assert_ne!(m.cia.cia_a.icr_data & 0x08, 0);
    assert_eq!(m.keyboard.len(), 0);
    assert_eq!(m.keyboard.delay, KEYBOARD_DELAY_FRAMES);
}

#[test]
fn a_key_release_carries_bit_seven() {
    let mut m = machine();
    m.chips.chipset.vpos = 40;
    m.keyboard.key_event(0x45, false);
    let mut line = vec![0u16; 8];
    m.run_line(&mut line);
    // 0xC5 rotated left is 0x8B.
    assert_eq!(m.cia.cia_a.sdr, 0x74);
}

#[test]
fn the_keyboard_waits_out_its_delay() {
    let mut m = machine();
    m.chips.chipset.vpos = 40;
    m.keyboard.key_event(0x45, true);
    m.keyboard.key_event(0x46, true);
    let mut line = vec![0u16; 8];
    m.run_line(&mut line);
    assert_eq!(m.keyboard.len(), 1);
    m.cia.cia_a.icr_ir = false;
    m.run_line(&mut line);
    assert_eq!(m.keyboard.len(), 1);
    assert_eq!(m.cia.cia_a.sdr, 0x75);
}

#[test]
fn the_cia_timers_are_started_late_in_boot() {
    let mut m = machine();
    m.chips.chipset.vpos = 311;
    m.total_cycles = FORCE_CIA_TIMER_THRESHOLD + 1;
    let mut line = vec![0u16; 8];
    m.run_line(&mut line);
    assert_eq!(m.cia.cia_a.cra & 1, 1);
    assert_eq!(m.cia.cia_b.cra & 1, 1);
    assert_eq!(m.forced_cia_timer_starts, 1);
    // Already running: the next frame starts nothing.
    m.chips.chipset.vpos = 311;
    m.run_line(&mut line);
    assert_eq!(m.forced_cia_timer_starts, 1);
}
