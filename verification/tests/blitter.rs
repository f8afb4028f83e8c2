use rumiga::blitter::{
    apply_minterm, read_word, shift_dma_pair, write_word, BlitterState, MAX_WIDTH, USE_A, USE_C,
    USE_D,
};

#[test]
fn minterm_f0_copies_a() {
    assert_eq!(apply_minterm(0xAAAA, 0x5555, 0xFF00, 0xF0), 0xAAAA);
    assert_eq!(apply_minterm(0x1234, 0x0000, 0xFFFF, 0xF0), 0x1234);
}

#[test]
fn minterm_ca_cookie_cut() {
    let a: u16 = 0xFF00;
    let b: u16 = 0x1234;
    let c: u16 = 0x5678;
    let expected = (a & b) | (!a & c);
    assert_eq!(apply_minterm(a, b, c, 0xCA), expected);
}

#[test]
fn simple_a_to_d_copy() {
    let mut chip_ram = vec![0u8; 256];
    chip_ram[0] = 0xDE;
    chip_ram[1] = 0xAD;
    chip_ram[2] = 0xBE;
    chip_ram[3] = 0xEF;

    let mut blitter = BlitterState::new();
    blitter.bltcon0 = USE_A | USE_D | 0xF0;
    blitter.bltapt = 0;
    blitter.bltdpt = 128;
    blitter.bltsize = (1 << 6) | 2;
    blitter.start_blit();
    blitter.execute_blit(&mut chip_ram);

    assert_eq!(chip_ram[128], 0xDE);
    assert_eq!(chip_ram[129], 0xAD);
    assert_eq!(chip_ram[130], 0xBE);
    assert_eq!(chip_ram[131], 0xEF);
}

#[test]
fn busy_done_flags_transition() {
    let mut chip_ram = vec![0u8; 64];
    let mut blitter = BlitterState::new();
    blitter.bltcon0 = USE_D | 0xF0;
    blitter.bltsize = (1 << 6) | 1;

    assert!(!blitter.is_busy());
    assert!(!blitter.done);

    blitter.start_blit();
    assert!(blitter.is_busy());
    assert!(!blitter.done);

    blitter.execute_blit(&mut chip_ram);
    assert!(!blitter.is_busy());
    assert!(blitter.done);
}

#[test]
fn legacy_zero_bltsize_decodes_hardware_maxima() {
    let mut blitter = BlitterState::new();

    blitter.start_legacy_size_blit(0);

    assert_eq!(blitter.vblitsize, 1024);
    assert_eq!(blitter.hblitsize, u32::from(MAX_WIDTH));
}

#[test]
fn ecs_aga_size_registers_decode_extended_maxima() {
    let mut blitter = BlitterState::new();

    blitter.set_vertical_size(0);
    blitter.start_horizontal_size_blit(0);

    assert_eq!(blitter.vblitsize, 0x8000);
    assert_eq!(blitter.hblitsize, 0x0800);
}

#[test]
fn first_last_word_masks_applied() {
    let mut chip_ram = vec![0u8; 256];
    for byte in chip_ram.iter_mut().take(6) {
        *byte = 0xFF;
    }

    let mut blitter = BlitterState::new();
    blitter.bltcon0 = USE_A | USE_D | 0xF0;
    blitter.bltafwm = 0x0FFF;
    blitter.bltalwm = 0xFFF0;
    blitter.bltapt = 0;
    blitter.bltdpt = 128;
    blitter.bltsize = (1 << 6) | 3;
    blitter.start_blit();
    blitter.execute_blit(&mut chip_ram);

    assert_eq!(chip_ram[128], 0x0F);
    assert_eq!(chip_ram[129], 0xFF);
    assert_eq!(chip_ram[130], 0xFF);
    assert_eq!(chip_ram[131], 0xFF);
    assert_eq!(chip_ram[132], 0xFF);
    assert_eq!(chip_ram[133], 0xF0);
}

#[test]
fn area_shift_pipelines_bits_from_previous_word() {
    let mut chip_ram = vec![0u8; 256];
    write_word(&mut chip_ram, 0, 0x1234);
    write_word(&mut chip_ram, 2, 0x5678);

    let mut blitter = BlitterState::new();
    blitter.bltcon0 = (4 << 12) | USE_A | USE_D | 0xF0;
    blitter.bltapt = 0;
    blitter.bltdpt = 128;
    blitter.bltsize = (1 << 6) | 2;
    blitter.start_blit();
    blitter.execute_blit(&mut chip_ram);

    assert_eq!(read_word(&chip_ram, 128), 0x0123);
    assert_eq!(read_word(&chip_ram, 130), 0x4567);
}

#[test]
fn descending_area_blit_subtracts_modulo_between_rows() {
    let mut chip_ram = vec![0u8; 256];
    write_word(&mut chip_ram, 0, 0xAAAA);
    write_word(&mut chip_ram, 4, 0xBBBB);

    let mut blitter = BlitterState::new();
    blitter.bltcon0 = USE_A | USE_D | 0xF0;
    blitter.bltcon1 = 0x0002;
    blitter.bltapt = 4;
    blitter.bltdpt = 36;
    blitter.bltamod = 2;
    blitter.bltdmod = 2;
    blitter.bltsize = (2 << 6) | 1;
    blitter.start_blit();
    blitter.execute_blit(&mut chip_ram);

    assert_eq!(read_word(&chip_ram, 32), 0xAAAA);
    assert_eq!(read_word(&chip_ram, 36), 0xBBBB);
}

#[test]
fn line_mode_draws_steep_positive_slope() {
    assert_blitter_line_matches_bresenham((3, 1), (8, 12));
}

#[test]
fn line_mode_draws_shallow_negative_slope() {
    assert_blitter_line_matches_bresenham((2, 12), (18, 4));
}

fn assert_blitter_line_matches_bresenham(start: (u16, u16), end: (u16, u16)) {
    const WIDTH: u16 = 32;
    const HEIGHT: u16 = 16;
    const ROW_BYTES: u16 = WIDTH / 8;

    let mut chip_ram = vec![0u8; usize::from(ROW_BYTES * HEIGHT)];
    let mut blitter = configured_line_blitter(start, end, ROW_BYTES);
    blitter.start_blit();
    blitter.execute_blit(&mut chip_ram);

    let expected = bresenham_points(start, end);
    for y in 0..HEIGHT {
        for x in 0..WIDTH {
            let expected_set = expected.contains(&(x, y));
            assert_eq!(
                pixel_is_set(&chip_ram, ROW_BYTES, x, y),
                expected_set,
                "pixel ({x},{y}) mismatch for line {start:?}->{end:?}"
            );
        }
    }
}

fn configured_line_blitter(start: (u16, u16), end: (u16, u16), row_bytes: u16) -> BlitterState {
    let (x1, y1) = start;
    let (x2, y2) = end;
    let dx = x1.abs_diff(x2);
    let dy = y1.abs_diff(y2);
    let dmax = dx.max(dy);
    let dmin = dx.min(dy);
    let initial_error = 4 * i16::try_from(dmin).unwrap() - 2 * i16::try_from(dmax).unwrap();

    let mut octant = 0u16;
    if (dx >= dy && x1 >= x2) || (dx < dy && y1 >= y2) {
        octant |= 0x04;
    }
    if (dx >= dy && y1 >= y2) || (dx < dy && x1 >= x2) {
        octant |= 0x08;
    }
    if dx >= dy {
        octant |= 0x10;
    }

    let start_addr = u32::from(y1 * row_bytes + (x1 / 16) * 2);
    let start_bit = x1 & 0x0F;
    let mut blitter = BlitterState::new();
    blitter.bltcon0 = (start_bit << 12) | USE_A | USE_C | USE_D | 0xCA;
    blitter.bltcon1 = (start_bit << 12) | octant | 0x01;
    if initial_error < 0 {
        blitter.bltcon1 |= 0x40;
    }
    blitter.bltafwm = 0xFFFF;
    blitter.bltalwm = 0xFFFF;
    blitter.bltadat = 0x8000;
    blitter.bltbdat = 0xFFFF;
    blitter.bltamod = 4 * (i16::try_from(dmin).unwrap() - i16::try_from(dmax).unwrap());
    blitter.bltbmod = 4 * i16::try_from(dmin).unwrap();
    blitter.bltcmod = i16::try_from(row_bytes).unwrap();
    blitter.bltdmod = i16::try_from(row_bytes).unwrap();
    blitter.bltapt = u32::from(u16::from_be_bytes(initial_error.to_be_bytes()));
    blitter.bltcpt = start_addr;
    blitter.bltdpt = start_addr;
    blitter.bltsize = ((dmax + 1) << 6) | 2;
    blitter
}

fn bresenham_points(start: (u16, u16), end: (u16, u16)) -> Vec<(u16, u16)> {
    let (mut x0, mut y0) = (i32::from(start.0), i32::from(start.1));
    let (x1, y1) = (i32::from(end.0), i32::from(end.1));
    let dx = (x1 - x0).abs();
    let sx = if x0 < x1 { 1 } else { -1 };
    let dy = -(y1 - y0).abs();
    let sy = if y0 < y1 { 1 } else { -1 };
    let mut err = dx + dy;
    let mut points = Vec::new();

    loop {
        points.push((u16::try_from(x0).unwrap(), u16::try_from(y0).unwrap()));
        if x0 == x1 && y0 == y1 {
            return points;
        }
        let err2 = 2 * err;
        if err2 >= dy {
            err += dy;
            x0 += sx;
        }
        if err2 <= dx {
            err += dx;
            y0 += sy;
        }
    }
}

fn pixel_is_set(chip_ram: &[u8], row_bytes: u16, x: u16, y: u16) -> bool {
    let addr = usize::from(y * row_bytes + (x / 16) * 2);
    let word = u16::from_be_bytes([chip_ram[addr], chip_ram[addr + 1]]);
    let bit = 15 - (x & 0x0F);
    (word >> bit) & 1 != 0
}

#[test]
fn minterm_zero_clears_and_ff_sets() {
    assert_eq!(apply_minterm(0x1234, 0x5678, 0x9ABC, 0x00), 0x0000);
    assert_eq!(apply_minterm(0x1234, 0x5678, 0x9ABC, 0xFF), 0xFFFF);
    assert_eq!(apply_minterm(0x1234, 0x5678, 0x9ABC, 0xCC), 0x5678);
    assert_eq!(apply_minterm(0x1234, 0x5678, 0x9ABC, 0xAA), 0x9ABC);
}

#[test]
fn words_wrap_within_chip_ram() {
    let mut ram = vec![0u8; 8];
    write_word(&mut ram, 10, 0xBEEF);
    assert_eq!(read_word(&ram, 2), 0xBEEF);
    assert_eq!(read_word(&ram, 10), 0xBEEF);
    write_word(&mut ram, 7, 0x1234);
    assert_eq!(ram[7], 0);
    assert_eq!(read_word(&ram, 7), 0);
}

#[test]
fn barrel_shift_fills_from_previous_word() {
    assert_eq!(shift_dma_pair(0x5678, 0x1234, 4, false), 0x4567);
    assert_eq!(shift_dma_pair(0x5678, 0x1234, 0, false), 0x5678);
    assert_eq!(shift_dma_pair(0x5678, 0x1234, 4, true), 0x6781);
}

#[test]
fn fill_mode_fills_between_edges() {
    let mut chip_ram = vec![0u8; 64];
    write_word(&mut chip_ram, 0, 0x0810);
    let mut blitter = BlitterState::new();
    blitter.bltcon0 = USE_A | USE_D | 0xF0;
    blitter.bltcon1 = 0x0008 | 0x0002;
    blitter.bltapt = 0;
    blitter.bltdpt = 32;
    blitter.bltsize = (1 << 6) | 1;
    blitter.start_blit();
    blitter.execute_blit(&mut chip_ram);
    assert_eq!(read_word(&chip_ram, 32), 0x0FF0);
}
