use rumiga::playfield::amiga_to_rgb565;
use rumiga::sprites::{SpriteEngine, SpriteState};

fn make_sprite(pos: u16, ctl: u16) -> SpriteState {
    SpriteState {
        pos,
        ctl,
        ..SpriteState::new()
    }
}

#[test]
fn vstart_extraction() {
    let s = make_sprite(0x2C00, 0x0000);
    assert_eq!(SpriteEngine::vstart(&s), 0x2C);

    let s = make_sprite(0x2C00, 0x0004);
    assert_eq!(SpriteEngine::vstart(&s), 0x12C);
}

#[test]
fn vstop_extraction() {
    let s = make_sprite(0x0000, 0x3C00);
    assert_eq!(SpriteEngine::vstop(&s), 0x3C);

    let s = make_sprite(0x0000, 0x3C02);
    assert_eq!(SpriteEngine::vstop(&s), 0x13C);
}

#[test]
fn hstart_extraction() {
    let s = make_sprite(0x0040, 0x0000);
    assert_eq!(SpriteEngine::hstart(&s), 0x80);

    let s = make_sprite(0x0040, 0x0001);
    assert_eq!(SpriteEngine::hstart(&s), 0x81);
}

#[test]
fn render_at_correct_position() {
    let mut engine = SpriteEngine::new();
    engine.sprites[0].active = true;
    engine.sprites[0].pos = 0x0020;
    engine.sprites[0].ctl = 0x0000;
    engine.sprites[0].data_a = 0x8000;
    engine.sprites[0].data_b = 0x0000;

    let mut colors = [0u16; 32];
    colors[17] = 0x0F00;

    let mut buf = [0u16; 256];
    engine.render_into_line(&mut buf, &colors, 0, 0);

    assert_eq!(buf[0x40], amiga_to_rgb565(0x0F00));
    assert_eq!(buf[0x3F], 0);
    assert_eq!(buf[0x41], 0);
}

#[test]
fn transparent_pixels_dont_overwrite() {
    let mut engine = SpriteEngine::new();
    engine.sprites[0].active = true;
    engine.sprites[0].pos = 0x0010;
    engine.sprites[0].ctl = 0x0000;
    engine.sprites[0].data_a = 0x0000;
    engine.sprites[0].data_b = 0x0000;

    let mut colors = [0u16; 32];
    colors[17] = 0xFFFF;

    let mut buf = [0xAAAA_u16; 256];
    engine.render_into_line(&mut buf, &colors, 0, 0);

    for px in &buf {
        assert_eq!(*px, 0xAAAA);
    }
}

#[test]
fn sprite_uses_correct_palette_for_pair() {
    let mut engine = SpriteEngine::new();
    engine.sprites[4].active = true;
    engine.sprites[4].pos = 0x0000;
    engine.sprites[4].ctl = 0x0000;
    engine.sprites[4].data_a = 0x8000;
    engine.sprites[4].data_b = 0x8000;

    let mut colors = [0u16; 32];
    colors[24 + 3] = 0x00F0;

    let mut buf = [0u16; 256];
    engine.render_into_line(&mut buf, &colors, 4, 0);

    assert_eq!(buf[0], amiga_to_rgb565(0x00F0));
}

#[test]
fn begin_scanline_activates_and_deactivates() {
    let mut engine = SpriteEngine::new();
    engine.sprites[0].dma_enabled = true;
    engine.sprites[0].pos = 0x2C00;
    engine.sprites[0].ctl = 0x3C00;

    engine.begin_scanline(0x2B);
    assert!(!engine.sprites[0].active);

    engine.begin_scanline(0x2C);
    assert!(engine.sprites[0].active);
    assert!(engine.sprites[0].armed);

    engine.begin_scanline(0x3C);
    assert!(!engine.sprites[0].active);
    assert!(!engine.sprites[0].armed);
}

#[test]
fn fetch_data_loads_position_then_pixels() {
    let mut engine = SpriteEngine::new();
    engine.sprites[1].pt = 0;
    let ram = [0x2C, 0x40, 0x3C, 0x00, 0x80, 0x00, 0x00, 0x01];
    engine.fetch_data(1, &ram);
    assert_eq!(engine.sprites[1].pos, 0x2C40);
    assert_eq!(engine.sprites[1].ctl, 0x3C00);
    assert_eq!(engine.sprites[1].pt, 4);
    engine.sprites[1].active = true;
    engine.fetch_data(1, &ram);
    assert_eq!(engine.sprites[1].data_a, 0x8000);
    assert_eq!(engine.sprites[1].data_b, 0x0001);
    assert_eq!(engine.sprites[1].pt, 8);
}
