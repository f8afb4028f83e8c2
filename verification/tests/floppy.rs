use rumiga::floppy::{
    encode_mfm_track, DskDmaState, FloppyController, FLOPPY_SPEED_COMPATIBLE_PERCENT,
    FLOPPY_SPEED_TURBO_PERCENT, MFM_TRACK_WORDS, MFM_WORDS_PER_SECTOR,
    PAL_SCANLINES_PER_FLOPPY_REVOLUTION, SECTORS_PER_TRACK, SECTOR_SIZE, TRACK_SIZE,
    TURBO_DSK_WORD_CYCLES_PER_SCANLINE,
};

#[test]
fn dsklen_double_write_starts_dma() {
    let mut ctrl = FloppyController::new();
    let adf = vec![0u8; (TRACK_SIZE * 160) as usize];
    ctrl.insert_disk(0, adf);
    ctrl.selected = 0x0E;
    ctrl.write_dsklen(0x8000 | 0x64, 0x0400);
    assert_eq!(ctrl.dma_state, DskDmaState::Off);
    ctrl.write_dsklen(0x8000 | 0x64, 0x0400);
    assert_eq!(ctrl.dma_state, DskDmaState::Read);
}

#[test]
fn default_floppy_speed_is_compatible() {
    let ctrl = FloppyController::new();
    assert_eq!(ctrl.speed_percent(), FLOPPY_SPEED_COMPATIBLE_PERCENT);
}

#[test]
fn rejects_unsupported_floppy_speed() {
    let mut ctrl = FloppyController::new();
    assert!(!ctrl.set_speed_percent(300));
    assert_eq!(ctrl.speed_percent(), FLOPPY_SPEED_COMPATIBLE_PERCENT);
}

#[test]
fn compatible_speed_advances_one_track_per_revolution() {
    let mut ctrl = FloppyController::new();
    let mut words = 0usize;

    for _ in 0..PAL_SCANLINES_PER_FLOPPY_REVOLUTION {
        words += ctrl.dma_word_cycles_for_scanline();
    }

    assert_eq!(words, MFM_TRACK_WORDS as usize);
}

#[test]
fn fast_800_speed_advances_eight_tracks_per_revolution() {
    let mut ctrl = FloppyController::new();
    assert!(ctrl.set_speed_percent(800));
    let mut words = 0usize;

    for _ in 0..PAL_SCANLINES_PER_FLOPPY_REVOLUTION {
        words += ctrl.dma_word_cycles_for_scanline();
    }

    assert_eq!(words, (MFM_TRACK_WORDS * 8) as usize);
}

#[test]
fn turbo_speed_uses_fixed_scanline_budget() {
    let mut ctrl = FloppyController::new();
    assert!(ctrl.set_speed_percent(FLOPPY_SPEED_TURBO_PERCENT));

    assert_eq!(
        ctrl.dma_word_cycles_for_scanline(),
        TURBO_DSK_WORD_CYCLES_PER_SCANLINE
    );
}

#[test]
fn no_disk_no_sync_no_dma() {
    let mut ctrl = FloppyController::new();
    ctrl.selected = 0x0E;
    ctrl.write_dsklen(0x8000 | 0x64, 0x0400);
    ctrl.write_dsklen(0x8000 | 0x64, 0x0400);

    let mut ram = vec![0u8; 65536];
    for _ in 0..20000 {
        ctrl.disk_dma_cycle(&mut ram);
    }
    assert!(!ctrl.dma_enable);
    assert!(ctrl.pending_blk_irq);
    assert!(ctrl.pending_sync_irq);
}

#[test]
fn with_disk_sync_found_and_dma_completes() {
    let mut ctrl = FloppyController::new();
    let adf = vec![0u8; (TRACK_SIZE * 160) as usize];
    ctrl.insert_disk(0, adf);
    ctrl.selected = 0x0E;
    ctrl.drives[0].motor = true;
    ctrl.dskpt = 0x1000;
    ctrl.write_dsklen(0x8000 | 0x0A, 0x0400);
    ctrl.write_dsklen(0x8000 | 0x0A, 0x0400);

    let mut ram = vec![0u8; 65536];
    let mut cycles = 0;
    while !ctrl.pending_blk_irq && cycles < 20000 {
        ctrl.disk_dma_cycle(&mut ram);
        cycles += 1;
    }
    assert!(ctrl.pending_sync_irq, "sync should have been found");
    assert!(ctrl.pending_blk_irq, "DMA should have completed");
}

#[test]
fn encoded_track_decodes_back_to_adf_sectors() {
    let mut adf = vec![0u8; (TRACK_SIZE * 160) as usize];
    for (idx, byte) in adf.iter_mut().enumerate() {
        *byte = idx.wrapping_mul(37).wrapping_add(11).to_le_bytes()[0];
    }

    let track = encode_mfm_track(&adf, 0, 0);
    let decoded = decode_amigados_track(&track, 0);

    assert_eq!(&decoded, &adf[..TRACK_SIZE as usize]);
}

#[test]
fn step_changes_track() {
    let mut ctrl = FloppyController::new();
    ctrl.selected = 0x0E;
    ctrl.disk_select(0b1111_0000);
    ctrl.disk_select(0b1111_0001);
    assert_eq!(ctrl.drives[0].cyl, 1);

    ctrl.disk_select(0b1111_0010);
    ctrl.disk_select(0b1111_0011);
    assert_eq!(ctrl.drives[0].cyl, 0);
}

#[test]
fn motor_control() {
    let mut ctrl = FloppyController::new();
    ctrl.disk_select(0b0111_0000);
    assert!(ctrl.drives[0].motor);

    ctrl.disk_select(0b1111_1000);
    assert!(ctrl.drives[0].motor);
    ctrl.disk_select(0b1111_0000);
    assert!(!ctrl.drives[0].motor);
}

fn decode_amigados_track(track: &[u16], track_number: u8) -> Vec<u8> {
    let mut decoded = vec![0u8; TRACK_SIZE as usize];
    let mut seen = [false; SECTORS_PER_TRACK as usize];
    let mut offset = 0usize;

    while offset + 1 < track.len() && !seen.iter().all(|s| *s) {
        if track[offset] != 0x4489 || track[offset + 1] != 0x4489 {
            offset += 1;
            continue;
        }
        while offset < track.len() && track[offset] == 0x4489 {
            offset += 1;
        }

        if offset + MFM_WORDS_PER_SECTOR - 4 > track.len() {
            break;
        }

        let id_odd = get_mfm_long(track, offset);
        let id_even = get_mfm_long(track, offset + 2);
        let id = (id_odd << 1) | id_even;
        offset += 4;

        let sector = ((id >> 8) & 0xFF) as usize;
        assert_eq!(((id >> 16) & 0xFF) as u8, track_number);
        assert!(sector < SECTORS_PER_TRACK as usize);

        let mut header_checksum = id_odd ^ id_even;
        for _ in 0..4 {
            let odd = get_mfm_long(track, offset);
            let even = get_mfm_long(track, offset + 8);
            header_checksum ^= odd ^ even;
            offset += 2;
        }
        offset += 8;

        let checksum_odd = get_mfm_long(track, offset);
        let checksum_even = get_mfm_long(track, offset + 2);
        let expected_header_checksum = (checksum_odd << 1) | checksum_even;
        assert_eq!(expected_header_checksum, header_checksum);
        offset += 4;

        let data_checksum_odd = get_mfm_long(track, offset);
        let data_checksum_even = get_mfm_long(track, offset + 2);
        let mut data_checksum = (data_checksum_odd << 1) | data_checksum_even;
        offset += 4;

        for long_idx in 0..128 {
            let odd = get_mfm_long(track, offset);
            let even = get_mfm_long(track, offset + 256);
            data_checksum ^= odd ^ even;
            let data = (odd << 1) | even;
            let dst = sector * SECTOR_SIZE as usize + long_idx * 4;
            decoded[dst..dst + 4].copy_from_slice(&data.to_be_bytes());
            offset += 2;
        }
        assert_eq!(data_checksum, 0);
        offset += 256;
        seen[sector] = true;
    }

    assert!(seen.iter().all(|s| *s));
    decoded
}

fn get_mfm_long(track: &[u16], offset: usize) -> u32 {
    ((u32::from(track[offset]) << 16) | u32::from(track[offset + 1])) & 0x5555_5555
}

#[test]
fn test_write_dma_accumulates_and_decodes_track() {
    let mut ctrl = FloppyController::new();
    let adf = vec![0u8; (TRACK_SIZE * 160) as usize];
    ctrl.insert_disk(0, adf.clone());
    ctrl.selected = 0x0E;
    ctrl.drives[0].motor = true;

    let mut modified_adf = adf.clone();
    modified_adf[0..12].copy_from_slice(b"HELLO WORLD!");
    let mfm_track = encode_mfm_track(&modified_adf, 0, 0);

    let mut chip_ram = vec![0u8; 65536];
    let start_addr = 0x1000;
    for (i, word) in mfm_track.iter().enumerate() {
        let addr = start_addr + i * 2;
        chip_ram[addr] = (word >> 8) as u8;
        chip_ram[addr + 1] = (word & 0xFF) as u8;
    }

    let track_words = MFM_TRACK_WORDS as u16;
    ctrl.dskpt = start_addr as u32;
    ctrl.write_dsklen(0x8000 | 0x4000 | track_words, 0);
    ctrl.write_dsklen(0x8000 | 0x4000 | track_words, 0);

    assert_eq!(ctrl.dma_state, DskDmaState::Write);

    for _ in 0..track_words {
        ctrl.disk_dma_cycle(&mut chip_ram);
    }

    assert_eq!(ctrl.dma_state, DskDmaState::Off);
    assert!(ctrl.pending_blk_irq);
    assert!(ctrl.drives[0].dirty);

    let updated_adf = ctrl.drives[0].data.as_ref().unwrap();
    assert_eq!(&updated_adf[0..12], b"HELLO WORLD!");
}

#[test]
fn encoded_track_has_fixed_length_and_sync_words() {
    let adf = vec![0u8; (TRACK_SIZE * 2) as usize];
    let track = encode_mfm_track(&adf, 0, 1);
    assert_eq!(track.len(), MFM_TRACK_WORDS as usize);
    assert!(track.windows(2).any(|w| w == [0x4489, 0x4489]));
    assert_eq!(decode_amigados_track(&track, 1), adf[TRACK_SIZE as usize..]);
}

#[test]
fn drive_id_and_status_queries_follow_selection() {
    let mut ctrl = FloppyController::new();
    assert!(!ctrl.any_drive_selected());
    ctrl.disk_select(0b0111_0000);
    assert!(ctrl.any_drive_selected());
    assert_eq!(ctrl.first_selected_drive(), 0);
    assert!(ctrl.at_track0());
    assert!(!ctrl.has_disk());
    assert!(ctrl.motor_on());
    ctrl.insert_disk(0, vec![0u8; (TRACK_SIZE * 160) as usize]);
    assert!(ctrl.has_disk());
}

#[test]
fn dsksync_write_sets_the_sync_word() {
    let mut ctrl = FloppyController::new();
    ctrl.write_dsksync(0x1234);
    assert_eq!(ctrl.dsksync, 0x1234);
}
