use rumiga::blitter::BlitterState;
use rumiga::chipset::CustomChipState;
use rumiga::cia::CiaPair;
use rumiga::copper::CopperState;
use rumiga::custom;
use rumiga::playfield::PlayfieldState;
use rumiga::registers::{CustomChips, RegisterWriteEffect};
use rumiga::scanline::run_chip_line;
use rumiga::sprites::SpriteEngine;
use rumiga::video::VideoStandard;

fn line_chips() -> CustomChips {
    CustomChips {
        chipset: CustomChipState::new(VideoStandard::Pal),
        copper: CopperState::new(),
        playfield: PlayfieldState::new(),
        sprites: SpriteEngine::new(),
        blitter: BlitterState::new(),
    }
}

#[test]
fn last_line_wraps_to_line_zero_and_raises_vertical_blank() {
    let mut chips = line_chips();
    chips.chipset.vpos = 311;
    let mut regs = [0u16; 256];
    let mut cia = CiaPair::new();
    let ram = vec![0u8; 1024];
    let mut line = vec![0u16; 8];
    let (fb, effects) = run_chip_line(&mut chips, &mut regs, &mut cia, &ram, &mut line);
    assert_eq!(chips.chipset.vpos, 0);
    assert_eq!(chips.chipset.hpos, 0);
    assert_ne!(chips.chipset.intreq & custom::INT_VERTB, 0);
    assert_eq!(regs[(custom::INTREQR / 2) as usize], chips.chipset.intreq);
    // With DIWSTRT zero the display window starts at line 0.
    assert_eq!(fb, Some(0));
    assert!(effects.is_empty());
}

#[test]
fn copper_writes_reach_the_register_shadow_and_the_playfield() {
    let mut chips = line_chips();
    chips.chipset.vpos = 40;
    let mut ram = vec![0u8; 1024];
    // MOVE $0F00 to COLOR00, then the end-of-list WAIT.
    ram[0x100..0x108].copy_from_slice(&[0x01, 0x80, 0x0F, 0x00, 0xFF, 0xFF, 0xFF, 0xFE]);
    chips.copper.cop1lc = 0x100;
    chips.copper.reset();
    chips.copper.enabled = true;
    let mut regs = [0u16; 256];
    let mut cia = CiaPair::new();
    let mut line = vec![0u16; 8];
    let (_, effects) = run_chip_line(&mut chips, &mut regs, &mut cia, &ram, &mut line);
    assert_eq!(chips.chipset.vpos, 41);
    assert_eq!(regs[(custom::COLOR00 / 2) as usize], 0x0F00);
    assert_eq!(chips.playfield.color[0], 0x0F00);
    assert_eq!(effects, vec![RegisterWriteEffect::Done]);
    assert_eq!(chips.copper.state, rumiga::copper::CopperExecState::Execute);
}
