use rumiga::ide::{
    detect_rdb_geometry, ide_fallback_geometry, AtaController, DataDirection, HdfGeometrySource,
    RdbGeometry, ATA_SECTOR_SIZE, IDE_FALLBACK_HEADS, IDE_FALLBACK_MAX_CYLINDERS,
    IDE_FALLBACK_SECTORS_PER_TRACK, IDE_STATUS_DRQ, IDE_STATUS_ERR, RDB_BLOCK_BYTES_OFFSET,
    RDB_CHECKSUM_LONGWORDS_OFFSET, RDB_CYLINDERS_OFFSET, RDB_HEADS_OFFSET, RDB_SECTORS_OFFSET,
};

fn identify_word(controller: &AtaController, word_index: usize) -> u16 {
    let offset = word_index * 2;
    (u16::from(controller.data_buffer[offset]) << 8)
        | u16::from(controller.data_buffer[offset + 1])
}

fn put_be_u32(data: &mut [u8], offset: usize, value: u32) {
    data[offset..offset + 4].copy_from_slice(&value.to_be_bytes());
}

fn finalize_rdb_checksum(block: &mut [u8]) {
    put_be_u32(block, 8, 0);
    let sum = block.chunks_exact(4).fold(0u32, |sum, word| {
        sum.wrapping_add(u32::from_be_bytes([word[0], word[1], word[2], word[3]]))
    });
    put_be_u32(block, 8, 0u32.wrapping_sub(sum));
}

fn rdb_hdf(cylinders: u32, heads: u32, sectors_per_track: u32) -> Vec<u8> {
    let declared_bytes = (cylinders * heads * sectors_per_track) as usize * ATA_SECTOR_SIZE;
    let mut hdf = vec![0; declared_bytes.max(ATA_SECTOR_SIZE)];
    hdf[0..4].copy_from_slice(b"RDSK");
    put_be_u32(&mut hdf, RDB_CHECKSUM_LONGWORDS_OFFSET, 128);
    put_be_u32(&mut hdf, RDB_BLOCK_BYTES_OFFSET, ATA_SECTOR_SIZE as u32);
    put_be_u32(&mut hdf, RDB_CYLINDERS_OFFSET, cylinders);
    put_be_u32(&mut hdf, RDB_SECTORS_OFFSET, sectors_per_track);
    put_be_u32(&mut hdf, RDB_HEADS_OFFSET, heads);
    finalize_rdb_checksum(&mut hdf[0..ATA_SECTOR_SIZE]);
    hdf
}

#[test]
fn hdf_without_rdb_uses_winuae_style_ide_fallback_geometry() {
    let mut controller = AtaController::new();
    controller.insert_disk(vec![0; 10 * 1024 * 1024]);

    assert_eq!(controller.geometry_source, HdfGeometrySource::IdeFallback);
    assert_eq!(controller.cylinders, 20);
    assert_eq!(controller.heads, IDE_FALLBACK_HEADS);
    assert_eq!(controller.sectors_per_track, IDE_FALLBACK_SECTORS_PER_TRACK);
    assert_eq!(controller.rdb_geometry, RdbGeometry::none());
}

#[test]
fn large_ide_fallback_geometry_caps_cylinders_like_winuae() {
    let nine_gib_sectors = (9_u64 * 1024 * 1024 * 1024) / ATA_SECTOR_SIZE as u64;

    assert_eq!(
        ide_fallback_geometry(nine_gib_sectors),
        (
            IDE_FALLBACK_MAX_CYLINDERS,
            IDE_FALLBACK_HEADS,
            IDE_FALLBACK_SECTORS_PER_TRACK
        )
    );
}

#[test]
fn valid_rdb_geometry_drives_hdf_chs_translation() {
    let mut controller = AtaController::new();
    controller.insert_disk(rdb_hdf(100, 4, 32));

    assert_eq!(controller.geometry_source, HdfGeometrySource::Rdb);
    assert_eq!(controller.cylinders, 100);
    assert_eq!(controller.heads, 4);
    assert_eq!(controller.sectors_per_track, 32);
    assert!(controller.rdb_geometry.detected);
    assert!(controller.rdb_geometry.usable);
    assert!(controller.rdb_geometry.checksum_valid);
    assert_eq!(controller.rdb_geometry.block_size_bytes, 512);
    assert_eq!(controller.rdb_geometry.declared_bytes, 100 * 4 * 32 * 512);
    assert!(controller.rdb_geometry.fits_in_image);
}

#[test]
fn rdb_geometry_accepts_256_sectors_per_track_from_large_amiga_hdfs() {
    let mut controller = AtaController::new();
    controller.insert_disk(rdb_hdf(4, 4, 256));

    assert_eq!(controller.geometry_source, HdfGeometrySource::Rdb);
    assert_eq!(controller.cylinders, 4);
    assert_eq!(controller.heads, 4);
    assert_eq!(controller.sectors_per_track, 256);
    assert!(controller.rdb_geometry.usable);
}

#[test]
fn invalid_rdb_checksum_is_reported_and_falls_back_to_ide_geometry() {
    let mut hdf = rdb_hdf(100, 4, 32);
    hdf[RDB_CYLINDERS_OFFSET + 3] ^= 0x01;

    let mut controller = AtaController::new();
    controller.insert_disk(hdf);

    assert_eq!(controller.geometry_source, HdfGeometrySource::IdeFallback);
    assert!(controller.rdb_geometry.detected);
    assert!(!controller.rdb_geometry.usable);
    assert!(!controller.rdb_geometry.checksum_valid);
    assert_eq!(controller.heads, IDE_FALLBACK_HEADS);
    assert_eq!(controller.sectors_per_track, IDE_FALLBACK_SECTORS_PER_TRACK);
}

#[test]
fn test_current_lba_chs() {
    let mut controller = AtaController::new();
    controller.heads = 16;
    controller.sectors_per_track = 63;
    controller.sector = 5;
    controller.lcyl = 10;
    controller.hcyl = 0;
    controller.select = 2;

    assert_eq!(controller.current_lba(), 10210);
}

#[test]
fn test_current_lba_lba() {
    let mut controller = AtaController::new();
    controller.sector = 0x12;
    controller.lcyl = 0x34;
    controller.hcyl = 0x56;
    controller.select = 0x47;

    assert_eq!(controller.current_lba(), 0x07563412);
}

#[test]
fn test_identify_device() {
    let mut controller = AtaController::new();
    controller.insert_disk(vec![0; 10 * 1024 * 1024]);
    controller.write_command(0xEC);

    assert_eq!(controller.data_direction, DataDirection::Read);
    assert!((controller.status & IDE_STATUS_DRQ) != 0);
    assert_eq!(controller.data_buffer.len(), 512);

    let word_0 = controller.read_data_word();
    assert_eq!(word_0, 0x4000);

    let word_1 = controller.read_data_word();
    assert_eq!(word_1, controller.cylinders.swap_bytes());
}

#[test]
fn test_identify_device_reports_fs_uae_style_capabilities() {
    let mut controller = AtaController::new();
    controller.insert_disk(vec![0; 10 * 1024 * 1024]);
    controller.write_command(0xEC);

    assert_eq!(identify_word(&controller, 47), 0x0000);
    assert_eq!(identify_word(&controller, 49), 0x0300);
    assert_eq!(identify_word(&controller, 53), 0x0007);
    assert_eq!(identify_word(&controller, 59), 0x0000);
    assert_eq!(identify_word(&controller, 60), 20480);
    assert_eq!(identify_word(&controller, 61), 0);
    assert_eq!(identify_word(&controller, 80), 0x007E);
    assert_eq!(identify_word(&controller, 27), 0x5255);
}

#[test]
fn test_missing_slave_status_reports_error() {
    let mut controller = AtaController::new();
    controller.insert_disk(vec![0; 10 * 1024 * 1024]);
    controller.select = 0x10;

    assert_eq!(controller.read_register(7, false), IDE_STATUS_ERR);
    assert_eq!(controller.read_register(7, true), IDE_STATUS_ERR);
    assert_eq!(controller.read_register(2, false), 0);
}

#[test]
fn test_read_sectors() {
    let mut controller = AtaController::new();
    let mut disk_data = vec![0; 5120];
    disk_data[512] = 0xAA;
    disk_data[513] = 0xBB;
    controller.insert_disk(disk_data);

    controller.sector = 2;
    controller.lcyl = 0;
    controller.hcyl = 0;
    controller.select = 0;
    controller.nsector = 1;

    assert_eq!(controller.current_lba(), 1);

    controller.write_command(0x20);

    assert_eq!(controller.data_direction, DataDirection::Read);
    let first_word = controller.read_data_word();
    assert_eq!(first_word, 0xAABB);
}

#[test]
fn test_write_sectors() {
    let mut controller = AtaController::new();
    controller.insert_disk(vec![0; 5120]);

    controller.sector = 2;
    controller.lcyl = 0;
    controller.hcyl = 0;
    controller.select = 0;
    controller.nsector = 1;

    controller.write_command(0x30);

    assert_eq!(controller.data_direction, DataDirection::Write);

    for i in 0..256 {
        controller.write_data_word(i as u16);
    }

    assert_eq!(controller.data_direction, DataDirection::Idle);
    assert!(controller.hdf_dirty);

    let written_disk = controller.disk_data.as_ref().unwrap();
    assert_eq!(written_disk[512], 0);
    assert_eq!(written_disk[513], 0);
    assert_eq!(written_disk[514], 0);
    assert_eq!(written_disk[515], 1);
}

#[test]
fn test_software_reset_initializes_signatures() {
    let mut controller = AtaController::new();
    controller.insert_disk(vec![0; 5120]);

    controller.nsector = 0xAA;
    controller.sector = 0x55;
    controller.lcyl = 0x12;
    controller.hcyl = 0x34;

    controller.write_register(7, true, 0x04);

    assert_eq!(controller.nsector, 1);
    assert_eq!(controller.sector, 1);
    assert_eq!(controller.lcyl, 0);
    assert_eq!(controller.hcyl, 0);
    assert_eq!(controller.error, 0x01);
}

#[test]
fn test_execute_diagnostics_initializes_signatures() {
    let mut controller = AtaController::new();
    controller.insert_disk(vec![0; 5120]);

    controller.nsector = 0xAA;
    controller.sector = 0x55;
    controller.lcyl = 0x12;
    controller.hcyl = 0x34;

    controller.write_command(0x90);

    assert_eq!(controller.nsector, 1);
    assert_eq!(controller.sector, 1);
    assert_eq!(controller.lcyl, 0);
    assert_eq!(controller.hcyl, 0);
    assert_eq!(controller.error, 0x01);
    assert!(controller.pending_irq);
}

#[test]
fn geometry_source_names_are_stable() {
    assert_eq!(HdfGeometrySource::Absent.as_str(), "none");
    assert_eq!(HdfGeometrySource::IdeFallback.as_str(), "ide-fallback");
    assert_eq!(HdfGeometrySource::Rdb.as_str(), "rdb");
}

#[test]
fn rdb_detection_reads_the_partition_block() {
    let geometry = detect_rdb_geometry(&rdb_hdf(10, 2, 16));
    assert!(geometry.detected);
    assert!(geometry.usable);
    assert_eq!(geometry.block_index, 0);
    assert_eq!((geometry.cylinders, geometry.heads, geometry.sectors_per_track), (10, 2, 16));
    assert_eq!(detect_rdb_geometry(&vec![0u8; 4096]), RdbGeometry::none());
}

#[test]
fn small_image_fallback_geometry_rounds_cylinders_down() {
    assert_eq!(ide_fallback_geometry(2016), (2, IDE_FALLBACK_HEADS, IDE_FALLBACK_SECTORS_PER_TRACK));
    assert_eq!(ide_fallback_geometry(1000), (0, IDE_FALLBACK_HEADS, IDE_FALLBACK_SECTORS_PER_TRACK));
}

#[test]
fn written_sector_reads_back() {
    let mut controller = AtaController::new();
    controller.insert_disk(vec![0; 5120]);
    controller.sector = 3;
    controller.nsector = 1;
    controller.write_command(0x30);
    for i in 0..256u16 {
        controller.write_data_word(0xA500 | i);
    }
    controller.sector = 3;
    controller.nsector = 1;
    controller.write_command(0x20);
    assert_eq!(controller.read_data_word(), 0xA500);
    assert_eq!(controller.read_data_word(), 0xA501);
    assert_eq!(controller.total_sectors(), 10);
}

#[test]
fn transfer_checks_follow_the_taskfile() {
    let mut ide = AtaController::new();
    assert!(ide.byte_port_ready());
    assert!(ide.commit_ready());
    // CHS mode with a huge cylinder, head and sector count overflows 32 bits.
    ide.lcyl = 0xFF;
    ide.hcyl = 0xFF;
    ide.select = 0x0F;
    ide.heads = 255;
    ide.sectors_per_track = 0xFFFF;
    ide.sector = 0xFF;
    assert!(!ide.lba_fits());
    assert!(!ide.accepts_command(0x20));
    assert!(ide.accepts_command(0x10));
    ide.select = 0x4F;
    assert!(ide.lba_fits());
    assert!(ide.accepts_command(0x20));
    ide.cylinders = 0xFFFF;
    assert!(!ide.accepts_command(0xEC));
    let copy = ide.duplicate();
    assert_eq!(copy.select, 0x4F);
    assert_eq!(copy.cylinders, 0xFFFF);
}
