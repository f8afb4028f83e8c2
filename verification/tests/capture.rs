use rumiga::capture::{
    force_start_cia_timer, snapshot_bitplane_words, translate_amiga_keycode, VideoScanlineSnapshot,
    EARLY_VIDEO_SCANLINE_DUMP, VIDEO_SCANLINE_WORD_DUMP,
};

#[test]
fn snapshot_samples_active_planes_and_wraps() {
    let ram = [0x12, 0x34, 0x56, 0x78];
    let words = snapshot_bitplane_words(&ram, [0, 2, 0, 0, 0, 0, 0, 0], 2);
    assert_eq!(words[0][0], 0x1234);
    assert_eq!(words[0][1], 0x5678);
    assert_eq!(words[0][2], 0x1234);
    assert_eq!(words[1][0], 0x5678);
    assert!(words[2].iter().all(|w| *w == 0));
    assert!(snapshot_bitplane_words(&[], [0; 8], 8).iter().all(|row| row.iter().all(|w| *w == 0)));
    let straddle = snapshot_bitplane_words(&[1, 2, 3], [2, 0, 0, 0, 0, 0, 0, 0], 1);
    assert_eq!(straddle[0][0], 0);
    assert_eq!(straddle[0][1], 0x0203);
}

#[test]
fn snapshot_holds_the_sampled_words() {
    let snapshot = VideoScanlineSnapshot {
        vpos: 44,
        framebuffer_line: 18,
        hstart: 0x81,
        hstop: 0x1C1,
        vstart: 0x2C,
        vstop: 0x12C,
        bplcon0: 0x1200,
        bplcon1: 0,
        ddfstrt: 0x38,
        ddfstop: 0xD0,
        bpl1mod: 0,
        bpl2mod: 0,
        bplpt: [0; 8],
        bitplane_words: snapshot_bitplane_words(&[0xAB, 0xCD], [0; 8], 1),
        num_planes: 1,
    };
    assert_eq!(snapshot.bitplane_words[0][0], 0xABCD);
    assert_eq!(VIDEO_SCANLINE_WORD_DUMP, 48);
    assert_eq!(EARLY_VIDEO_SCANLINE_DUMP, 24);
}

#[test]
fn keycodes_are_rotated_and_inverted() {
    assert_eq!(translate_amiga_keycode(0x45), 0x75);
    assert_eq!(translate_amiga_keycode(0x80), 0xFE);
    assert_eq!(translate_amiga_keycode(0x00), 0xFF);
}

#[test]
fn timer_start_workaround_sets_the_start_bit_once() {
    let mut control = 0x08u8;
    assert!(force_start_cia_timer(&mut control));
    assert_eq!(control, 0x09);
    assert!(!force_start_cia_timer(&mut control));
    assert_eq!(control, 0x09);
}
