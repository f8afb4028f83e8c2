use rumiga::blitter::BlitterState;
use rumiga::chipset::CustomChipState;
use rumiga::copper::{CopperExecState, CopperState};
use rumiga::custom;
use rumiga::playfield::PlayfieldState;
use rumiga::registers::{
    aga_color, is_blitter_register, with_high_word, with_low_word, CustomChips, RegisterWriteEffect,
};
use rumiga::sprites::SpriteEngine;
use rumiga::video::VideoStandard;

fn chips() -> CustomChips {
    CustomChips {
        chipset: CustomChipState::new(VideoStandard::Pal),
        copper: CopperState::new(),
        playfield: PlayfieldState::new(),
        sprites: SpriteEngine::new(),
        blitter: BlitterState::new(),
    }
}

#[test]
fn pointer_words_are_replaced_separately() {
    assert_eq!(with_high_word(0x0012_3456, 0x0007), 0x0007_3456);
    assert_eq!(with_low_word(0x0012_3456, 0xBEEF), 0x0012_BEEE);
}

#[test]
fn copper_pointers_are_masked_to_chip_ram() {
    let mut c = chips();
    c.dispatch_register_write(custom::COP1LCH, 0x00FF, 512 * 1024);
    c.dispatch_register_write(custom::COP1LCL, 0x1235, 512 * 1024);
    assert_eq!(c.copper.cop1lc, 0x0007_1234);
    c.dispatch_register_write(custom::COPJMP1, 0, 512 * 1024);
    assert_eq!(c.copper.pc, 0x0007_1234);
    assert_eq!(c.copper.state, CopperExecState::FetchFirst);
}

#[test]
fn dmacon_enables_the_copper() {
    let mut c = chips();
    let effect = c.dispatch_register_write(
        custom::DMACON,
        0x8000 | custom::DMA_MASTER | custom::DMA_COPPER,
        512 * 1024,
    );
    assert_eq!(effect, RegisterWriteEffect::Done);
    assert!(c.copper.enabled);
}

#[test]
fn interrupt_writes_report_the_new_registers() {
    let mut c = chips();
    let effect = c.dispatch_register_write(custom::INTENA, 0x8000 | custom::INT_VERTB, 0);
    assert_eq!(
        effect,
        RegisterWriteEffect::InterruptsChanged { intreq: 0, intena: custom::INT_VERTB }
    );
}

#[test]
fn disk_registers_are_handed_to_the_floppy_controller() {
    let mut c = chips();
    assert_eq!(c.dispatch_register_write(custom::DSKLEN, 0x8010, 0), RegisterWriteEffect::DiskLength(0x8010));
    assert_eq!(c.dispatch_register_write(custom::DSKPTL, 0x1001, 0), RegisterWriteEffect::DiskPointerLow(0x1001));
}

#[test]
fn color_writes_reach_both_palettes() {
    let mut c = chips();
    c.dispatch_register_write(custom::COLOR00 + 2, 0xF123, 0);
    assert_eq!(c.playfield.color[1], 0x0123);
    assert_eq!(c.playfield.color_aga[1], 0x0011_2233);
    assert_eq!(c.chipset.color[1], 0x0123);
    c.dispatch_register_write(custom::BPLCON3, 0x2200, 0);
    c.dispatch_register_write(custom::COLOR00, 0x0ABC, 0);
    assert_eq!(c.playfield.color_aga[32], 0x000A_0B0C);
    assert_eq!(aga_color(0x00FF_FFFF, 0x0123, true), 0x00F1_F2F3);
}

#[test]
fn sprite_pointer_low_write_rearms_the_sprite() {
    let mut c = chips();
    c.sprites.sprites[3].active = true;
    c.sprites.sprites[3].armed = true;
    c.dispatch_register_write(custom::SPR0PTH + 12, 0x0001, 0);
    c.dispatch_register_write(custom::SPR0PTH + 14, 0x2000, 0);
    assert_eq!(c.sprites.sprites[3].pt, 0x0001_2000);
    assert!(!c.sprites.sprites[3].active);
    assert!(!c.sprites.sprites[3].armed);
    assert_eq!(c.chipset.dmacon & custom::DMA_SPRITE, custom::DMA_SPRITE);
    c.dispatch_register_write(custom::SPR0POS + 8 * 1 + 4, 0x8000, 0);
    assert_eq!(c.sprites.sprites[1].data_a, 0x8000);
}

#[test]
fn blitter_writes_update_registers_and_start_blits() {
    let mut c = chips();
    assert!(is_blitter_register(custom::BLTSIZE));
    assert!(!is_blitter_register(custom::DMACON));
    c.dispatch_register_write(custom::BLTCON0, 0x09F0, 0);
    c.dispatch_register_write(custom::BLTCON0L, 0x00CA, 0);
    assert_eq!(c.blitter.bltcon0, 0x09CA);
    c.dispatch_register_write(custom::BLTAMOD, 0xFFFE, 0);
    assert_eq!(c.blitter.bltamod, -2);
    assert_eq!(
        c.dispatch_register_write(custom::BLTSIZE, (1 << 6) | 2, 0),
        RegisterWriteEffect::StartBlit
    );
    assert!(c.blitter.busy);
    assert_eq!(c.blitter.hblitsize, 2);
}

#[test]
fn bitplane_pointers_take_high_and_low_words() {
    let mut c = chips();
    c.dispatch_register_write(custom::BPL1PTH + 4, 0x0002, 0);
    c.dispatch_register_write(custom::BPL1PTH + 6, 0x4001, 0);
    assert_eq!(c.playfield.bplpt[1], 0x0002_4000);
    c.dispatch_register_write(custom::BPLCON0, 0x1200, 0);
    assert_eq!(c.playfield.bplcon0, 0x1200);
}

#[test]
fn bplcon3_loct_and_banking() {
    let mut c = chips();
    let chip_len = 2 * 1024 * 1024;

    c.dispatch_register_write(0x106, 0x0000, chip_len);
    c.dispatch_register_write(0x182, 0x0F48, chip_len);

    assert_eq!(c.playfield.color_aga[1], 0xFF4488);

    c.dispatch_register_write(0x106, 0x2200, chip_len);
    c.dispatch_register_write(0x182, 0x0ABC, chip_len);

    assert_eq!(c.playfield.color_aga[33], 0x0A0B0C);
}
