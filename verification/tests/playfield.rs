use rumiga::playfield::{
    amiga_to_rgb565, rgb888_to_rgb565, PlayfieldState, DISPLAY_LEFT_HPOS, DISPLAY_WIDTH,
};

fn active_start_px(pf: &PlayfieldState) -> usize {
    let (hstart, _, _, _) = pf.display_window();
    usize::from(hstart.saturating_sub(DISPLAY_LEFT_HPOS)) * 2
}

#[test]
fn amiga_to_rgb565_black() {
    assert_eq!(amiga_to_rgb565(0x0000), 0x0000);
}

#[test]
fn amiga_to_rgb565_white() {
    assert_eq!(amiga_to_rgb565(0x0FFF), 0xFFFF);
}

#[test]
fn amiga_to_rgb565_red() {
    assert_eq!(amiga_to_rgb565(0x0F00), 0xF800);
}

#[test]
fn amiga_to_rgb565_green() {
    assert_eq!(amiga_to_rgb565(0x00F0), 0x07E0);
}

#[test]
fn amiga_to_rgb565_blue() {
    assert_eq!(amiga_to_rgb565(0x000F), 0x001F);
}

#[test]
fn num_planes_extraction() {
    let mut pf = PlayfieldState::new();
    pf.bplcon0 = 0x1000;
    assert_eq!(pf.num_planes(), 1);
    pf.bplcon0 = 0x4000;
    assert_eq!(pf.num_planes(), 4);
    pf.bplcon0 = 0x6000;
    assert_eq!(pf.num_planes(), 6);
}

#[test]
fn single_bitplane_renders_two_colors() {
    let mut pf = PlayfieldState::new();
    pf.bplcon0 = 0x1000;
    pf.diwstrt = 0x2C81;
    pf.diwstop = 0x2CC1;
    pf.color[0] = 0x0000;
    pf.color[1] = 0x0FFF;

    let mut chip_ram = [0u8; 1024];
    chip_ram[0] = 0xFF;
    chip_ram[1] = 0x00;
    chip_ram[2] = 0x00;
    chip_ram[3] = 0xFF;

    pf.bplpt[0] = 0;

    let mut line_buffer = [0u16; DISPLAY_WIDTH as usize];
    pf.render_scanline(0x2C, &chip_ram, &mut line_buffer);

    let white = amiga_to_rgb565(0x0FFF);
    let black = amiga_to_rgb565(0x0000);
    let start = active_start_px(&pf);

    for px in &line_buffer[start..start + 16] {
        assert_eq!(*px, white);
    }
    for px in &line_buffer[start + 16..start + 32] {
        assert_eq!(*px, black);
    }
    for px in &line_buffer[start + 32..start + 48] {
        assert_eq!(*px, black);
    }
    for px in &line_buffer[start + 48..start + 64] {
        assert_eq!(*px, white);
    }
}

#[test]
fn multiple_bitplanes_combine_correctly() {
    let mut pf = PlayfieldState::new();
    pf.bplcon0 = 0x2000;
    pf.diwstrt = 0x2C81;
    pf.diwstop = 0x2CC1;
    pf.color[0] = 0x0000;
    pf.color[1] = 0x0F00;
    pf.color[2] = 0x00F0;
    pf.color[3] = 0x000F;

    let mut chip_ram = [0u8; 1024];
    chip_ram[0] = 0xAA;
    chip_ram[1] = 0xAA;
    chip_ram[100] = 0xCC;
    chip_ram[101] = 0xCC;

    pf.bplpt[0] = 0;
    pf.bplpt[1] = 100;

    let mut line_buffer = [0u16; DISPLAY_WIDTH as usize];
    pf.render_scanline(0x2C, &chip_ram, &mut line_buffer);

    let start = active_start_px(&pf);
    assert_eq!(line_buffer[start], amiga_to_rgb565(0x000F));
    assert_eq!(line_buffer[start + 1], amiga_to_rgb565(0x000F));
    assert_eq!(line_buffer[start + 2], amiga_to_rgb565(0x00F0));
    assert_eq!(line_buffer[start + 3], amiga_to_rgb565(0x00F0));
    assert_eq!(line_buffer[start + 4], amiga_to_rgb565(0x0F00));
    assert_eq!(line_buffer[start + 5], amiga_to_rgb565(0x0F00));
    assert_eq!(line_buffer[start + 6], amiga_to_rgb565(0x0000));
    assert_eq!(line_buffer[start + 7], amiga_to_rgb565(0x0000));
}

#[test]
fn highres_renders_native_source_pixels() {
    let mut pf = PlayfieldState::new();
    pf.bplcon0 = 0x8000 | 0x1000;
    pf.diwstrt = 0x2C81;
    pf.diwstop = 0x2CC1;
    pf.color[0] = 0x0000;
    pf.color[1] = 0x0FFF;

    let mut chip_ram = [0u8; 128];
    chip_ram[0] = 0xAA;
    chip_ram[1] = 0xAA;
    chip_ram[2] = 0x55;
    chip_ram[3] = 0x55;

    pf.bplpt[0] = 0;

    let mut line_buffer = [0u16; DISPLAY_WIDTH as usize];
    pf.render_scanline(0x2C, &chip_ram, &mut line_buffer);

    let white = amiga_to_rgb565(0x0FFF);
    let black = amiga_to_rgb565(0x0000);
    let start = active_start_px(&pf);
    for (i, px) in line_buffer[start..start + 16].iter().enumerate() {
        let expected = if i % 2 == 0 { white } else { black };
        assert_eq!(*px, expected, "pixel {i} mismatch");
    }
    assert_eq!(pf.bplpt[0], 80);
}

#[test]
fn highres_ddf_window_controls_words_fetched() {
    let mut pf = PlayfieldState::new();
    pf.bplcon0 = 0x8000 | 0x1000;
    pf.diwstrt = 0x2C81;
    pf.diwstop = 0x2CC1;
    pf.ddfstrt = 0x0038;
    pf.ddfstop = 0x00D8;
    pf.color[0] = 0x0000;
    pf.color[1] = 0x0FFF;

    let chip_ram = [0xFFu8; 256];
    let mut line_buffer = [0u16; DISPLAY_WIDTH as usize];
    pf.render_scanline(0x2C, &chip_ram, &mut line_buffer);

    assert_eq!(pf.bplpt[0], 84);
}

#[test]
fn nonstandard_ddf_to_diw_phase_skips_hidden_left_source_pixels() {
    let mut pf = PlayfieldState::new();
    pf.bplcon0 = 0x1000;
    pf.diwstrt = 0x1D95;
    pf.diwstop = 0x38AD;
    pf.ddfstrt = 0x0040;
    pf.ddfstop = 0x00D0;
    pf.color[0] = 0x0000;
    pf.color[1] = 0x0FFF;

    let mut chip_ram = [0u8; 64];
    chip_ram[0] = 0x03;
    chip_ram[1] = 0xFF;
    pf.bplpt[0] = 0;

    let mut line_buffer = [0u16; DISPLAY_WIDTH as usize];
    pf.render_scanline(0x7D, &chip_ram, &mut line_buffer);

    let black = amiga_to_rgb565(0x0000);
    let white = amiga_to_rgb565(0x0FFF);
    let start = active_start_px(&pf);
    assert_eq!(line_buffer[start - 1], black);
    assert_eq!(line_buffer[start], white);
    assert_eq!(line_buffer[start + 1], white);
}

#[test]
fn pixels_outside_display_window_are_background() {
    let mut pf = PlayfieldState::new();
    pf.bplcon0 = 0x1000;
    pf.diwstrt = 0x2C81;
    pf.diwstop = 0x2CC1;
    pf.color[0] = 0x0123;
    pf.color[1] = 0x0FFF;

    let chip_ram = [0xFFu8; 1024];
    pf.bplpt[0] = 0;

    let mut line_buffer = [0u16; DISPLAY_WIDTH as usize];
    pf.render_scanline(0x00, &chip_ram, &mut line_buffer);

    let bg = amiga_to_rgb565(0x0123);
    for px in &line_buffer {
        assert_eq!(*px, bg);
    }
}

#[test]
fn normal_visible_raster_keeps_side_borders() {
    let mut pf = PlayfieldState::new();
    pf.bplcon0 = 0x1000;
    pf.diwstrt = 0x2C81;
    pf.diwstop = 0x2CC1;
    pf.color[0] = 0x0123;
    pf.color[1] = 0x0FFF;

    let chip_ram = [0xFFu8; 1024];
    let mut line_buffer = [0u16; DISPLAY_WIDTH as usize];
    pf.render_scanline(0x2C, &chip_ram, &mut line_buffer);

    let bg = amiga_to_rgb565(0x0123);
    let fg = amiga_to_rgb565(0x0FFF);
    let start = active_start_px(&pf);
    let (hstart, hstop, _, _) = pf.display_window();
    let end = start + usize::from(hstop - hstart) * 2;

    assert_eq!(start, 74);
    assert_eq!(line_buffer[start - 1], bg);
    assert_eq!(line_buffer[start], fg);
    assert_eq!(line_buffer[end - 1], fg);
    assert_eq!(line_buffer[end], bg);
}

#[test]
fn diwhigh_decoding() {
    let mut pf = PlayfieldState::new();
    pf.diwstrt = 0x2C81;
    pf.diwstop = 0x2CC1;
    pf.diwhigh = 0x2020;
    let (hstart, hstop, vstart, vstop) = pf.display_window();
    assert_eq!(hstart, 0x181);
    assert_eq!(hstop, 0x1C1);
    assert_eq!(vstart, 0x2C);
    assert_eq!(vstop, 0x2C);
}

#[test]
fn ham8_hold_and_modify_decoding() {
    let mut pf = PlayfieldState::new();
    pf.bplcon0 = 0x0810;
    pf.diwstrt = 0x2C81;
    pf.diwstop = 0x2CC1;

    pf.color_aga[0] = 0x112233;
    pf.color_aga[1] = 0x445566;

    let mut chip_ram = [0u8; 1024];
    let p_words = [
        0xB000u16, 0x5000, 0x3000, 0x5000, 0x3000, 0x5000, 0x3000, 0x6000,
    ];
    for i in 0..8 {
        pf.bplpt[i] = (i * 10) as u32;
        let addr = i * 10;
        chip_ram[addr] = (p_words[i] >> 8) as u8;
        chip_ram[addr + 1] = (p_words[i] & 0xFF) as u8;
    }

    let mut line_buffer = [0u16; DISPLAY_WIDTH as usize];
    pf.render_scanline(0x2C, &chip_ram, &mut line_buffer);

    let start = active_start_px(&pf);

    let c0 = rgb888_to_rgb565(0x445566);
    assert_eq!(line_buffer[start], c0);
    assert_eq!(line_buffer[start + 1], c0);

    let c1 = rgb888_to_rgb565(0xA95566);
    assert_eq!(line_buffer[start + 2], c1);
    assert_eq!(line_buffer[start + 3], c1);

    let c2 = rgb888_to_rgb565(0xA95566);
    assert_eq!(line_buffer[start + 4], c2);
    assert_eq!(line_buffer[start + 5], c2);

    let c3 = rgb888_to_rgb565(0xA955FF);
    assert_eq!(line_buffer[start + 6], c3);
    assert_eq!(line_buffer[start + 7], c3);
}

#[test]
fn ham6_hold_and_modify_decoding() {
    let mut pf = PlayfieldState::new();
    pf.bplcon0 = 0x6800;
    pf.diwstrt = 0x2C81;
    pf.diwstop = 0x2CC1;

    pf.color_aga[0] = 0x112233;
    pf.color_aga[1] = 0x445566;

    let mut chip_ram = [0u8; 1024];
    let p_words = [0x8000u16, 0x4000, 0x0000, 0x4000, 0x0000, 0x4000];
    for i in 0..6 {
        pf.bplpt[i] = (i * 10) as u32;
        let addr = i * 10;
        chip_ram[addr] = (p_words[i] >> 8) as u8;
        chip_ram[addr + 1] = (p_words[i] & 0xFF) as u8;
    }

    let mut line_buffer = [0u16; DISPLAY_WIDTH as usize];
    pf.render_scanline(0x2C, &chip_ram, &mut line_buffer);

    let start = active_start_px(&pf);

    let c0 = rgb888_to_rgb565(0x445566);
    assert_eq!(line_buffer[start], c0);

    let c1 = rgb888_to_rgb565(0xAA5566);
    assert_eq!(line_buffer[start + 2], c1);
}

#[test]
fn rgb888_conversion_keeps_the_high_bits() {
    assert_eq!(rgb888_to_rgb565(0xFFFFFF), 0xFFFF);
    assert_eq!(rgb888_to_rgb565(0x000000), 0x0000);
    assert_eq!(rgb888_to_rgb565(0xF80000), 0xF800);
    assert_eq!(rgb888_to_rgb565(0x00FC00), 0x07E0);
    assert_eq!(rgb888_to_rgb565(0x0000F8), 0x001F);
}

#[test]
fn twelve_bit_colour_expands_each_nibble() {
    assert_eq!(amiga_to_rgb565(0x0123), rgb888_to_rgb565(0x112233));
    assert_eq!(amiga_to_rgb565(0xF0FF), 0x07FF);
}

#[test]
fn fetch_bitplane_word_reads_and_advances_pointer() {
    let mut pf = PlayfieldState::new();
    pf.bplpt[2] = 4;
    let ram = [0u8, 0, 0, 0, 0xBE, 0xEF, 0, 0];
    pf.fetch_bitplane_word(2, &ram);
    assert_eq!(pf.bpldat[2], 0xBEEF);
    assert_eq!(pf.bplpt[2], 6);
}

#[test]
fn fetch_bitplane_word_out_of_bounds_reads_zero() {
    let mut pf = PlayfieldState::new();
    pf.bplpt[0] = 4;
    let ram = [0x12u8, 0x34, 0x56, 0x78];
    pf.fetch_bitplane_word(0, &ram);
    assert_eq!(pf.bpldat[0], 0);
    assert_eq!(pf.bplpt[0], 6);
    pf.bplpt[1] = 3;
    pf.fetch_bitplane_word(1, &ram);
    assert_eq!(pf.bpldat[1], 0);
}
