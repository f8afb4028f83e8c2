use rumiga::custom;
use rumiga::m68k::memory::AddressBus;
use rumiga::m68k::types::CpuType;
use rumiga::memory::{
    custom_word_after_byte_write, decode_read, decode_write, gayle_id_bit, gayle_ide_register,
    gayle_irq_after_write, AmigaMemory, MemoryConfig, ReadTarget, WriteTarget, GAYLE_IRQ_IDE,
};

#[test]
fn model_configurations() {
    let a500 = MemoryConfig::a500();
    assert_eq!(a500.chip_ram_size, 512 * 1024);
    assert_eq!(a500.rom_size, 256 * 1024);
    assert_eq!(a500.cpu_type, CpuType::M68000);
    assert!(!a500.gayle_cia_decode);
    assert_eq!(MemoryConfig::a500_plus().chip_ram_size, 1024 * 1024);
    assert!(MemoryConfig::a600().gayle_cia_decode);
    let a1200 = MemoryConfig::a1200();
    assert_eq!(a1200.chip_ram_size, 2 * 1024 * 1024);
    assert_eq!(a1200.cpu_type, CpuType::M68020);
}

#[test]
fn overlay_maps_rom_at_zero_until_cleared() {
    let cfg = MemoryConfig::a500();
    assert_eq!(decode_read(&cfg, true, 0x10), ReadTarget::Rom(0x10));
    assert_eq!(decode_read(&cfg, false, 0x10), ReadTarget::ChipRam(0x10));
    assert_eq!(decode_write(&cfg, 0x10), WriteTarget::ChipRam(0x10));
}

#[test]
fn chip_ram_mirrors_up_to_two_megabytes() {
    let cfg = MemoryConfig::a500();
    assert_eq!(decode_read(&cfg, false, 0x8_0004), ReadTarget::ChipRam(4));
    assert_eq!(decode_write(&cfg, 0x1F_FFFF), WriteTarget::ChipRam(0x7_FFFF));
}

#[test]
fn unmapped_space_falls_to_expansion_and_rom() {
    let cfg = MemoryConfig::a500();
    assert_eq!(decode_read(&cfg, false, 0x20_0000), ReadTarget::Expansion { rom_offset: None });
    assert_eq!(decode_read(&cfg, false, 0xFC_0002), ReadTarget::Expansion { rom_offset: Some(2) });
    assert_eq!(decode_read(&cfg, false, 0xE0_0010), ReadTarget::Rom(0x10));
    assert_eq!(decode_read(&cfg, false, 0x60_0000), ReadTarget::OpenBus);
    assert_eq!(decode_write(&cfg, 0xFC_0002), WriteTarget::Expansion);
}

#[test]
fn slow_and_fast_ram_when_configured() {
    let mut cfg = MemoryConfig::a500();
    cfg.slow_ram_size = 512 * 1024;
    cfg.fast_ram_size = 1024 * 1024;
    assert_eq!(decode_read(&cfg, false, 0xC0_0000), ReadTarget::SlowRam(0));
    assert_eq!(decode_write(&cfg, 0xC0_0001), WriteTarget::SlowRam(1));
    assert_eq!(decode_read(&cfg, false, 0x20_0003), ReadTarget::FastRam(3));
    assert_eq!(decode_read(&cfg, false, 0x30_0000), ReadTarget::Expansion { rom_offset: None });
}

#[test]
fn cia_decoding_by_address_parity() {
    let cfg = MemoryConfig::a500();
    assert_eq!(decode_read(&cfg, false, 0xBF_E001), ReadTarget::CiaA(0));
    assert_eq!(decode_read(&cfg, false, 0xBF_D100), ReadTarget::CiaB(1));
    assert_eq!(decode_read(&cfg, false, 0xBF_D101), ReadTarget::OpenBus);
    assert_eq!(
        decode_write(&cfg, 0xBF_E201),
        WriteTarget::Cia { register: 2, cia_a: true, cia_b: false }
    );
}

#[test]
fn gayle_cia_decoding_by_chip_select() {
    let cfg = MemoryConfig::a1200();
    assert_eq!(
        decode_write(&cfg, 0xBF_E000),
        WriteTarget::Cia { register: 0, cia_a: true, cia_b: false }
    );
    assert_eq!(
        decode_write(&cfg, 0xBF_D001),
        WriteTarget::Cia { register: 0, cia_a: false, cia_b: true }
    );
}

#[test]
fn gayle_registers_and_ide_aliases() {
    let cfg = MemoryConfig::a1200();
    assert_eq!(decode_read(&cfg, false, 0xDA_8000), ReadTarget::GayleStatus);
    assert_eq!(decode_read(&cfg, false, 0xDA_9000), ReadTarget::GayleIrq);
    assert_eq!(decode_read(&cfg, false, 0xDA_2004), ReadTarget::GayleIde(1));
    assert_eq!(gayle_ide_register(0xDA_101C), 0x407);
    assert_eq!(gayle_ide_register(0xDA_0020), 0);
    assert_eq!(decode_read(&cfg, false, 0xD8_0000), ReadTarget::Zero);
    assert_eq!(decode_read(&cfg, false, 0xDE_1000), ReadTarget::GayleId);
    assert_eq!(decode_write(&cfg, 0xDE_1000), WriteTarget::GayleIdReset);
    assert_eq!(gayle_irq_after_write(0x83, 0x7F), 0x03);
    let bits: Vec<u8> = (0..8).map(gayle_id_bit).collect();
    assert_eq!(bits, vec![0x80, 0x80, 0x00, 0x80, 0x00, 0x00, 0x00, 0x80]);
}

#[test]
fn custom_registers_take_bytes() {
    let cfg = MemoryConfig::a500();
    assert_eq!(
        decode_read(&cfg, false, 0xDF_F180),
        ReadTarget::Custom { register: 0xC0, high_byte: true }
    );
    assert_eq!(
        decode_write(&cfg, 0xDF_F181),
        WriteTarget::Custom { register: 0xC0, high_byte: false }
    );
    assert_eq!(custom_word_after_byte_write(0x1234, 0xAB, true), 0xAB34);
    assert_eq!(custom_word_after_byte_write(0x1234, 0xAB, false), 0x12AB);
}

#[test]
fn chip_ram_read_write() {
    let mut mem = AmigaMemory::new(MemoryConfig::a500());
    mem.overlay = false;
    AddressBus::write_byte(&mut mem, 0x0000, 0x42);
    assert_eq!(AddressBus::read_byte(&mut mem, 0x0000), 0x42);
    AddressBus::write_byte(&mut mem, 0x7_FFFF, 0xAB);
    assert_eq!(AddressBus::read_byte(&mut mem, 0x7_FFFF), 0xAB);
}

#[test]
fn chip_ram_mirror() {
    let mut mem = AmigaMemory::new(MemoryConfig::a500());
    mem.overlay = false;
    AddressBus::write_byte(&mut mem, 0x0100, 0x55);
    // 512KB chip RAM mirrors: 0x80100 should mirror to 0x0100
    assert_eq!(AddressBus::read_byte(&mut mem, 0x8_0100), 0x55);
}

#[test]
fn rom_read_only() {
    let mut mem = AmigaMemory::new(MemoryConfig::a500());
    let rom = vec![0xAA; 256 * 1024];
    mem.load_rom(&rom);
    assert_eq!(AddressBus::read_byte(&mut mem, 0xFC_0000), 0xAA);
    // Write to ROM should be ignored
    AddressBus::write_byte(&mut mem, 0xFC_0000, 0x55);
    assert_eq!(AddressBus::read_byte(&mut mem, 0xFC_0000), 0xAA);
}

#[test]
fn load_rom_preserves_kickstart_drive_parameter_table() {
    let mut mem = AmigaMemory::new(MemoryConfig::a500());
    let mut rom = vec![0xFF; 256 * 1024];
    rom[0x2_9F40] = 0x0B;
    rom[0x2_9F41] = 0xB8;

    mem.load_rom(&rom);

    assert!(!mem.rom_drive_step_patch_applied);
    assert_eq!(mem.rom_data()[0x2_9F40], 0x0B);
    assert_eq!(mem.rom_data()[0x2_9F41], 0xB8);
}

#[test]
fn overlay_maps_rom_at_zero() {
    let mut mem = AmigaMemory::new(MemoryConfig::a500());
    let mut rom = vec![0x00; 256 * 1024];
    rom[0] = 0x00;
    rom[1] = 0x10;
    rom[2] = 0x00;
    rom[3] = 0x00;
    mem.load_rom(&rom);
    // With overlay, address 0 reads from ROM
    assert_eq!(AddressBus::read_word(&mut mem, 0x0000), 0x0010);
    // Disable overlay
    mem.overlay = false;
    // Now address 0 reads from chip RAM (which is zeroed)
    assert_eq!(AddressBus::read_word(&mut mem, 0x0000), 0x0000);
}

#[test]
fn word_access() {
    let mut mem = AmigaMemory::new(MemoryConfig::a500());
    mem.overlay = false;
    AddressBus::write_word(&mut mem, 0x1000, 0xDEAD);
    assert_eq!(AddressBus::read_word(&mut mem, 0x1000), 0xDEAD);
    assert_eq!(AddressBus::read_byte(&mut mem, 0x1000), 0xDE);
    assert_eq!(AddressBus::read_byte(&mut mem, 0x1001), 0xAD);
}

#[test]
fn slow_ram_access() {
    let mut cfg = MemoryConfig::a500();
    cfg.slow_ram_size = 512 * 1024;
    let mut mem = AmigaMemory::new(cfg);
    AddressBus::write_byte(&mut mem, 0xC0_0000, 0x77);
    assert_eq!(AddressBus::read_byte(&mut mem, 0xC0_0000), 0x77);
}

#[test]
fn unmapped_returns_ff() {
    let mut mem = AmigaMemory::new(MemoryConfig::a500());
    mem.overlay = false;
    // Address in unmapped region (no fast RAM configured, 0x200000+)
    assert_eq!(AddressBus::read_byte(&mut mem, 0x20_0000), 0xFF);
}

#[test]
fn beamcon0_defaults_to_pal_timing() {
    let mem = AmigaMemory::new(MemoryConfig::a500());
    assert_eq!(mem.read_custom_reg(custom::BEAMCON0), custom::BEAMCON0_PAL);
}

#[test]
fn a1200_gayle_byte_write_selects_ciaa_by_page_not_a0() {
    let mut mem = AmigaMemory::new(MemoryConfig::a1200());

    AddressBus::write_byte(&mut mem, 0x00BF_EE00, 0x01);

    let cia = &mem.cia;
    assert_eq!(cia.cia_a.cra & 0x01, 0x01);
    assert_eq!(cia.cia_b.cra & 0x01, 0x00);
    assert_eq!(cia.cia_a.timer_a_stats.start_writes, 1);
    assert_eq!(cia.cia_b.timer_a_stats.start_writes, 0);
}

#[test]
fn a1200_gayle_byte_write_selects_ciab_by_page_not_a0() {
    let mut mem = AmigaMemory::new(MemoryConfig::a1200());

    AddressBus::write_byte(&mut mem, 0x00BF_DE01, 0x01);

    let cia = &mem.cia;
    assert_eq!(cia.cia_a.cra & 0x01, 0x00);
    assert_eq!(cia.cia_b.cra & 0x01, 0x01);
    assert_eq!(cia.cia_a.timer_a_stats.start_writes, 0);
    assert_eq!(cia.cia_b.timer_a_stats.start_writes, 1);
}

#[test]
fn a1200_gayle_word_write_uses_ciaa_low_byte() {
    let mut mem = AmigaMemory::new(MemoryConfig::a1200());

    AddressBus::write_word(&mut mem, 0x00BF_EE00, 0x0001);

    let cia = &mem.cia;
    assert_eq!(cia.cia_a.cra & 0x01, 0x01);
    assert_eq!(cia.cia_b.cra & 0x01, 0x00);
    assert_eq!(cia.cia_a.timer_a_stats.start_writes, 1);
}

#[test]
fn a1200_gayle_word_write_uses_ciab_high_byte() {
    let mut mem = AmigaMemory::new(MemoryConfig::a1200());

    AddressBus::write_word(&mut mem, 0x00BF_DE00, 0x0100);

    let cia = &mem.cia;
    assert_eq!(cia.cia_a.cra & 0x01, 0x00);
    assert_eq!(cia.cia_b.cra & 0x01, 0x01);
    assert_eq!(cia.cia_b.timer_a_stats.start_writes, 1);
}

#[test]
fn gayle_id_sequence() {
    let mut mem = AmigaMemory::new(MemoryConfig::a1200());
    mem.overlay = false;

    // Sequence of reads from 0x00DD1000 should return:
    // 0x80, 0x80, 0x00, 0x80, 0x00, 0x00, 0x00, 0x80, then 0x00
    assert_eq!(AddressBus::read_byte(&mut mem, 0x00DD_1000), 0x80);
    assert_eq!(AddressBus::read_byte(&mut mem, 0x00DD_1000), 0x80);
    assert_eq!(AddressBus::read_byte(&mut mem, 0x00DD_1000), 0x00);
    assert_eq!(AddressBus::read_byte(&mut mem, 0x00DD_1000), 0x80);
    assert_eq!(AddressBus::read_byte(&mut mem, 0x00DD_1000), 0x00);
    assert_eq!(AddressBus::read_byte(&mut mem, 0x00DD_1000), 0x00);
    assert_eq!(AddressBus::read_byte(&mut mem, 0x00DD_1000), 0x00);
    assert_eq!(AddressBus::read_byte(&mut mem, 0x00DD_1000), 0x80);
    assert_eq!(AddressBus::read_byte(&mut mem, 0x00DD_1000), 0x00);

    // Write to Gayle High region resets the read counter
    AddressBus::write_byte(&mut mem, 0x00DD_0000, 0x00);
    assert_eq!(AddressBus::read_byte(&mut mem, 0x00DD_1000), 0x80);
}

#[test]
fn gayle_registers_read_write() {
    let mut mem = AmigaMemory::new(MemoryConfig::a1200());
    mem.overlay = false;

    // Test Gayle INTENA write/read
    AddressBus::write_byte(&mut mem, 0x00DA_A000, 0x5A);
    assert_eq!(AddressBus::read_byte(&mut mem, 0x00DA_A000), 0x5A);

    // Test Gayle CONFIG write/read
    AddressBus::write_byte(&mut mem, 0x00DA_B000, 0xA5);
    assert_eq!(AddressBus::read_byte(&mut mem, 0x00DA_B000), 0x05);

    // Test Gayle Status write/read
    AddressBus::write_byte(&mut mem, 0x00DA_8000, 0x03);
    assert_eq!(AddressBus::read_byte(&mut mem, 0x00DA_8000), 0x03);

    // Test Gayle IRQ write/read
    AddressBus::write_byte(&mut mem, 0x00DA_9000, 0x03);
    assert_eq!(AddressBus::read_byte(&mut mem, 0x00DA_9000), 0x03);
}

#[test]
fn gayle_ide_command_alias_matches_fs_uae_decode() {
    let mut mem = AmigaMemory::new(MemoryConfig::a1200());
    mem.overlay = false;
    mem.ide.insert_disk(vec![0; 1024 * 1024]);

    AddressBus::write_byte(&mut mem, 0x00DA_201C, 0xEC);

    let ide = &mem.ide;
    assert_eq!(ide.command, 0xEC);
    assert_eq!(ide.devcon, 0x00);
    assert_ne!(ide.status & rumiga::ide::IDE_STATUS_DRQ, 0);
}

#[test]
fn gayle_ide_devcon_alias_matches_fs_uae_decode() {
    let mut mem = AmigaMemory::new(MemoryConfig::a1200());
    mem.overlay = false;
    mem.ide.insert_disk(vec![0; 1024 * 1024]);

    AddressBus::write_byte(&mut mem, 0x00DA_1018, 0x02);

    let ide = &mem.ide;
    assert_eq!(ide.devcon, 0x02);
    assert_eq!(ide.command, 0x00);
}

#[test]
fn gayle_status_reflects_and_acknowledges_ide_irq() {
    let mut mem = AmigaMemory::new(MemoryConfig::a1200());
    mem.overlay = false;
    mem.ide.insert_disk(vec![0; 1024 * 1024]);

    AddressBus::write_byte(&mut mem, 0x00DA_201C, 0xEC);
    assert_ne!(
        AddressBus::read_byte(&mut mem, 0x00DA_8000) & GAYLE_IRQ_IDE,
        0
    );

    let _ = AddressBus::read_byte(&mut mem, 0x00DA_201C);
    assert_eq!(
        AddressBus::read_byte(&mut mem, 0x00DA_8000) & GAYLE_IRQ_IDE,
        0
    );
}

#[test]
fn gayle_reserved_low_space_reads_zero() {
    let mut mem = AmigaMemory::new(MemoryConfig::a1200());
    mem.overlay = false;

    assert_eq!(AddressBus::read_byte(&mut mem, 0x00D8_0000), 0x00);
    assert_eq!(AddressBus::read_byte(&mut mem, 0x00DA_4000), 0x00);
    assert_eq!(AddressBus::read_byte(&mut mem, 0x00DA_FFFF), 0x00);
}

#[test]
fn ide_status_returns_7f() {
    let mut mem = AmigaMemory::new(MemoryConfig::a1200());
    mem.overlay = false;
    assert_eq!(AddressBus::read_byte(&mut mem, 0x00DA_001E), 0x7F);
}

#[test]
fn pcmcia_unmapped_returns_ff() {
    let mut mem = AmigaMemory::new(MemoryConfig::a1200());
    mem.overlay = false;
    assert_eq!(AddressBus::read_byte(&mut mem, 0x0060_0000), 0xFF);
    assert_eq!(AddressBus::read_byte(&mut mem, 0x009F_FFFF), 0xFF);
    assert_eq!(AddressBus::read_byte(&mut mem, 0x00A0_0000), 0xFF);
    assert_eq!(AddressBus::read_byte(&mut mem, 0x00A7_FFFF), 0xFF);
}

#[test]
fn cia_a_port_a_write_clears_the_boot_overlay() {
    let mut mem = AmigaMemory::new(MemoryConfig::a500());
    assert!(mem.overlay);
    AddressBus::write_byte(&mut mem, 0x00BF_E001, 0x02);
    assert!(!mem.overlay);
    assert_eq!(mem.cia_a_pra, 0x02);
    AddressBus::write_byte(&mut mem, 0x00BF_E001, 0x03);
    assert!(mem.overlay);
}

#[test]
fn cia_a_port_a_reads_disk_and_mouse_inputs() {
    let mut mem = AmigaMemory::new(MemoryConfig::a500());
    mem.overlay = false;
    // DDRA = 0x03: bits 0-1 outputs, the rest inputs.
    AddressBus::write_byte(&mut mem, 0x00BF_E201, 0x03);
    AddressBus::write_byte(&mut mem, 0x00BF_E001, 0x02);
    mem.disk_status = 0x24;
    mem.mouse_left = true;
    assert_eq!(AddressBus::read_byte(&mut mem, 0x00BF_E001), 0x02 | 0x24 | 0x80);
    mem.mouse_left = false;
    assert_eq!(AddressBus::read_byte(&mut mem, 0x00BF_E001), 0x02 | 0x24 | 0x40 | 0x80);
}

#[test]
fn custom_register_bytes_accumulate_and_log_the_word() {
    let mut mem = AmigaMemory::new(MemoryConfig::a500());
    AddressBus::write_byte(&mut mem, 0x00DF_F180, 0x0F);
    assert!(mem.drain_reg_writes().is_empty());
    AddressBus::write_byte(&mut mem, 0x00DF_F181, 0xA5);
    assert_eq!(mem.read_custom_reg(0x180), 0x0FA5);
    assert_eq!(mem.drain_reg_writes(), vec![(0x180u16, 0x0FA5u16)]);
    assert!(mem.drain_reg_writes().is_empty());
}

#[test]
fn custom_word_write_updates_read_back_copies() {
    let mut mem = AmigaMemory::new(MemoryConfig::a500());
    AddressBus::write_word(&mut mem, 0x00DF_F09A, 0xC020);
    assert_eq!(mem.read_custom_reg(0x01C), 0x4020);
    AddressBus::write_word(&mut mem, 0x00DF_F09A, 0x0020);
    assert_eq!(mem.read_custom_reg(0x01C), 0x4000);
    AddressBus::write_word(&mut mem, 0x00DF_F096, 0x8200);
    assert_eq!(mem.read_custom_reg(0x002), 0x0200);
    assert_eq!(mem.read_custom_reg(0x096), 0x8200);
}

#[test]
fn dskbytr_read_clears_byte_ready() {
    let mut mem = AmigaMemory::new(MemoryConfig::a500());
    mem.dskbytr = 0x80AB;
    assert_eq!(AddressBus::read_word(&mut mem, 0x00DF_F01A), 0x80AB);
    assert_eq!(AddressBus::read_word(&mut mem, 0x00DF_F01A), 0x00AB);
    mem.dskbytr = 0x8012;
    assert_eq!(AddressBus::read_byte(&mut mem, 0x00DF_F01A), 0x80);
    assert_eq!(AddressBus::read_byte(&mut mem, 0x00DF_F01B), 0x12);
}

#[test]
fn long_access_is_two_words_high_first() {
    let mut mem = AmigaMemory::new(MemoryConfig::a500());
    mem.overlay = false;
    AddressBus::write_long(&mut mem, 0x2000, 0x1234_5678);
    assert_eq!(AddressBus::read_word(&mut mem, 0x2000), 0x1234);
    assert_eq!(AddressBus::read_word(&mut mem, 0x2002), 0x5678);
    assert_eq!(AddressBus::read_long(&mut mem, 0x2000), 0x1234_5678);
    assert_eq!(mem.chip_ram()[0x2003], 0x78);
}

#[test]
fn chip_ram_mut_writes_through() {
    let mut mem = AmigaMemory::new(MemoryConfig::a500());
    mem.overlay = false;
    mem.chip_ram_mut()[0x10] = 0x99;
    assert_eq!(AddressBus::read_byte(&mut mem, 0x10), 0x99);
}

#[test]
fn copy_from_takes_state_but_keeps_log_and_mouse() {
    let mut a = AmigaMemory::new(MemoryConfig::a500());
    let mut b = AmigaMemory::new(MemoryConfig::a500());
    b.overlay = false;
    AddressBus::write_byte(&mut b, 0x40, 0x5A);
    b.gayle_status = 0x11;
    a.mouse_left = true;
    a.write_custom_reg(0x180, 0x0123);
    a.copy_from(&b);
    assert!(!a.overlay);
    assert_eq!(a.chip_ram()[0x40], 0x5A);
    assert_eq!(a.gayle_status, 0x11);
    assert!(a.mouse_left);
    assert_eq!(a.drain_reg_writes(), vec![(0x180u16, 0x0123u16)]);
}

#[test]
fn cia_word_access_helpers() {
    assert_eq!(rumiga::memory::cia_word(0x12, 0x34, false), 0x1234);
    assert_eq!(rumiga::memory::cia_word(0x12, 0x34, true), 0x3412);
    assert_eq!(rumiga::memory::cia_word_bytes(0xABCD, false), (0xAB, 0xCD));
    assert_eq!(rumiga::memory::cia_word_bytes(0xABCD, true), (0xCD, 0xAB));
    assert_eq!(rumiga::memory::cia_a_port_a(0x01, 0x03, 0x3C, false), 0xFD);
    assert_eq!(rumiga::memory::gayle_status_value(0x01, 0x80, false, 0), 0x81);
    assert_eq!(rumiga::memory::gayle_status_value(0x00, 0x00, true, 0x02), 0x00);
    assert_eq!(rumiga::memory::gayle_status_value(0x00, 0x00, true, 0x00), 0x80);
}

#[test]
fn cia_word_access_selects_chips_by_page() {
    let mut mem = AmigaMemory::new(MemoryConfig::a500());
    // $BFD200: CIA-B page; the high byte reaches CIA-B DDRA, CIA-A is not selected.
    AddressBus::write_word(&mut mem, 0x00BF_D200, 0x5A03);
    assert_eq!(mem.cia.cia_b.ddra, 0x5A);
    assert_eq!(mem.cia.cia_a.ddra, 0x00);
    assert_eq!(AddressBus::read_word(&mut mem, 0x00BF_D200), 0x5AFF);
    assert_eq!(AddressBus::read_word(&mut mem, 0x00BF_D201), 0xFF5A);
    // $BFE201: CIA-A page at an odd address: the bytes are swapped.
    AddressBus::write_word(&mut mem, 0x00BF_E201, 0x1203);
    assert_eq!(mem.cia.cia_a.ddra, 0x12);
    assert_eq!(mem.cia.cia_b.ddra, 0x5A);
}

#[test]
fn ill_formed_memory_reads_open_bus() {
    let mut cfg = MemoryConfig::a500();
    cfg.chip_ram_size = 0;
    let mut mem = AmigaMemory::new(cfg);
    assert!(!mem.is_well_formed());
    assert_eq!(AddressBus::read_byte(&mut mem, 0x10), 0xFF);
    assert_eq!(AddressBus::read_word(&mut mem, 0x10), 0xFFFF);
    assert!(AmigaMemory::new(MemoryConfig::a1200()).is_well_formed());
}
