use rumiga::blitter::BlitterState;
use rumiga::chipset::CustomChipState;
use rumiga::cia::{CiaPair, CiaState};
use rumiga::copper::CopperState;
use rumiga::custom;
use rumiga::emulator::{
    apply_bitplane_modulos, apply_write_effect, cpu_interrupt_level, finish_completed_blitter,
    framebuffer_line, gfx_copinit, mark_trackdisk_disk_changed, read_long_phys, reserve_boot_signal,
    run_copper_line, sync_colormap_to_copper, sync_playfield_registers, sync_readable_regs,
    tick_cia_line, KeyboardState, MouseState,
};
use rumiga::floppy::FloppyController;
use rumiga::m68k::memory::AddressBus;
use rumiga::memory::{AmigaMemory, MemoryConfig};
use rumiga::playfield::PlayfieldState;
use rumiga::registers::CustomChips;
use rumiga::sprites::SpriteEngine;
use rumiga::video::VideoStandard;

fn chips() -> CustomChips {
    CustomChips {
        chipset: CustomChipState::new(VideoStandard::Pal),
        copper: CopperState::new(),
        playfield: PlayfieldState::new(),
        sprites: SpriteEngine::new(),
        blitter: BlitterState::new(),
    }
}

/// A custom register write as the emulator dispatches it: the chips first,
/// then the floppy controller and register shadow; a started blit runs to
/// completion at once.
fn dispatch(
    chips: &mut CustomChips,
    floppy: &mut FloppyController,
    mem: &mut AmigaMemory,
    offset: u16,
    value: u16,
) {
    let chip_len = mem.chip_ram().len() as u32;
    let effect = chips.dispatch_register_write(offset, value, chip_len);
    if apply_write_effect(effect, floppy, &mut mem.custom_regs) {
        let mut blitter = chips.blitter.clone();
        blitter.execute_blit(mem.chip_ram_mut());
        finish_completed_blitter(&mut chips.blitter, Some(blitter));
        chips.chipset.intreq |= custom::INT_BLIT;
    }
}

#[test]
fn custom_pointer_low_writes_are_word_aligned() {
    let mut mem = AmigaMemory::new(MemoryConfig::a500());
    let mut c = chips();
    let mut floppy = FloppyController::new();

    dispatch(&mut c, &mut floppy, &mut mem, custom::BLTDPTH, 0x0001);
    dispatch(&mut c, &mut floppy, &mut mem, custom::BLTDPTL, 0x2345);
    assert_eq!(c.blitter.bltdpt, 0x0001_2344);

    dispatch(&mut c, &mut floppy, &mut mem, custom::BPL1PTH, 0x0002);
    dispatch(&mut c, &mut floppy, &mut mem, custom::BPL1PTL, 0x3457);
    assert_eq!(c.playfield.bplpt[0], 0x0002_3456);

    dispatch(&mut c, &mut floppy, &mut mem, custom::SPR0PTH, 0x0003);
    dispatch(&mut c, &mut floppy, &mut mem, custom::SPR0PTL, 0x4569);
    assert_eq!(c.sprites.sprites[0].pt, 0x0003_4568);

    dispatch(&mut c, &mut floppy, &mut mem, custom::DSKPTH, 0x0004);
    dispatch(&mut c, &mut floppy, &mut mem, custom::DSKPTL, 0x567B);
    assert_eq!(floppy.dskpt, 0x0004_567A);
}

#[test]
fn disk_status_reports_active_low_drive_id_bit() {
    let mut floppy = FloppyController::new();
    floppy.insert_disk(1, Vec::new());

    floppy.selected = 0x0D; // DF1 selected, motor off
    floppy.drives[1].drive_id = 0xFFFF_FFFF;
    floppy.drives[1].id_shift_count = 0;
    assert_eq!(floppy.disk_status() & 0x20, 0);

    floppy.drives[1].drive_id = 0;
    assert_eq!(floppy.disk_status() & 0x20, 0x20);
}

#[test]
fn blitter_pointers_masked_by_chip_ram_size() {
    // A500 profile has 512KB chip RAM (mask = 0x0007_FFFF)
    let mut mem = AmigaMemory::new(MemoryConfig::a500());
    let mut c = chips();
    let mut floppy = FloppyController::new();
    dispatch(&mut c, &mut floppy, &mut mem, custom::BLTAPTH, 0x000F); // outside 512KB
    dispatch(&mut c, &mut floppy, &mut mem, custom::BLTAPTL, 0x0000);
    // 0x000F_0000 & 0x0007_FFFF = 0x0007_0000
    assert_eq!(c.blitter.bltapt, 0x0007_0000);

    // A1200 profile has 2MB chip RAM (mask = 0x001F_FFFF)
    let mut mem_a1200 = AmigaMemory::new(MemoryConfig::a1200());
    let mut c_a1200 = chips();
    dispatch(&mut c_a1200, &mut floppy, &mut mem_a1200, custom::BLTAPTH, 0x003F); // outside 2MB
    dispatch(&mut c_a1200, &mut floppy, &mut mem_a1200, custom::BLTAPTL, 0x0000);
    // 0x003F_0000 & 0x001F_FFFF = 0x001F_0000
    assert_eq!(c_a1200.blitter.bltapt, 0x001F_0000);
}

#[test]
fn completed_blit_preserves_postincremented_pointers() {
    let mut mem = AmigaMemory::new(MemoryConfig::a500());
    mem.overlay = false;
    let mut c = chips();
    let mut floppy = FloppyController::new();

    for (offset, value) in [0xAA, 0xBB, 0xCC, 0xDD, 0x12, 0x34, 0x56, 0x78]
        .into_iter()
        .enumerate()
    {
        AddressBus::write_byte(&mut mem, 0x1000 + offset as u32, value);
    }

    dispatch(&mut c, &mut floppy, &mut mem, custom::BLTCON0, 0x09F0);
    dispatch(&mut c, &mut floppy, &mut mem, custom::BLTAPTH, 0x0000);
    dispatch(&mut c, &mut floppy, &mut mem, custom::BLTAPTL, 0x1000);
    dispatch(&mut c, &mut floppy, &mut mem, custom::BLTDPTH, 0x0000);
    dispatch(&mut c, &mut floppy, &mut mem, custom::BLTDPTL, 0x2000);
    dispatch(&mut c, &mut floppy, &mut mem, custom::BLTSIZE, (1 << 6) | 2);

    dispatch(&mut c, &mut floppy, &mut mem, custom::BLTSIZE, (1 << 6) | 2);

    assert_eq!(AddressBus::read_byte(&mut mem, 0x2004), 0x12);
    assert_eq!(AddressBus::read_byte(&mut mem, 0x2005), 0x34);
    assert_eq!(AddressBus::read_byte(&mut mem, 0x2006), 0x56);
    assert_eq!(AddressBus::read_byte(&mut mem, 0x2007), 0x78);
    assert_eq!(c.blitter.bltapt, 0x1008);
    assert_eq!(c.blitter.bltdpt, 0x2008);
}

#[test]
fn bltcon0l_updates_only_lower_control_byte() {
    let mut mem = AmigaMemory::new(MemoryConfig::a1200());
    let mut c = chips();
    let mut floppy = FloppyController::new();

    dispatch(&mut c, &mut floppy, &mut mem, custom::BLTCON0, 0xAB00);
    dispatch(&mut c, &mut floppy, &mut mem, custom::BLTCON0L, 0x00F0);

    assert_eq!(c.blitter.bltcon0, 0xABF0);
}

#[test]
fn bltsizv_bltsizh_start_extended_blit() {
    let mut mem = AmigaMemory::new(MemoryConfig::a1200());
    mem.overlay = false;
    let mut c = chips();
    let mut floppy = FloppyController::new();

    AddressBus::write_byte(&mut mem, 0x1000, 0x12);
    AddressBus::write_byte(&mut mem, 0x1001, 0x34);
    AddressBus::write_byte(&mut mem, 0x1002, 0x56);
    AddressBus::write_byte(&mut mem, 0x1003, 0x78);

    dispatch(&mut c, &mut floppy, &mut mem, custom::BLTCON0, 0x09F0);
    dispatch(&mut c, &mut floppy, &mut mem, custom::BLTAPTH, 0x0000);
    dispatch(&mut c, &mut floppy, &mut mem, custom::BLTAPTL, 0x1000);
    dispatch(&mut c, &mut floppy, &mut mem, custom::BLTDPTH, 0x0000);
    dispatch(&mut c, &mut floppy, &mut mem, custom::BLTDPTL, 0x2000);

    dispatch(&mut c, &mut floppy, &mut mem, custom::BLTSIZV, 1);
    dispatch(&mut c, &mut floppy, &mut mem, custom::BLTSIZH, 2);

    assert_eq!(AddressBus::read_byte(&mut mem, 0x2000), 0x12);
    assert_eq!(AddressBus::read_byte(&mut mem, 0x2001), 0x34);
    assert_eq!(AddressBus::read_byte(&mut mem, 0x2002), 0x56);
    assert_eq!(AddressBus::read_byte(&mut mem, 0x2003), 0x78);
    assert!(c.blitter.done);
}

#[test]
fn test_mouse_and_keyboard_handling() {
    let mut mem = AmigaMemory::new(MemoryConfig::a500());
    let chipset = CustomChipState::new(VideoStandard::Pal);
    let mut keyboard = KeyboardState::new();
    let mut mouse = MouseState::new();

    // 1. Verify keyboard event triggers interrupt on serial port (bit 3)
    // Enable Serial Port interrupt in CIA-A ICR mask (0x08)
    mem.cia.cia_a.write(0xD, 0x88); // Set bit 7 (SET) and bit 3 (SP)
    assert_eq!(mem.cia.cia_a.icr_mask & 0x08, 0x08);

    // Queue key press
    keyboard.key_event(0x10, true); // 'Q' pressed

    // The scanline's keyboard step sends the queued key
    keyboard.deliver(&mut mem.cia.cia_a);

    // CIA-A ICR_SP interrupt should be pending
    {
        let cia_a = &mem.cia.cia_a;
        assert_eq!(cia_a.sdr, 0xDF);
        assert!(cia_a.icr_ir);
        assert_ne!(cia_a.icr_data & 0x08, 0);
    }

    // Reading REG_ICR (0xD) should return the interrupt and clear it
    let icr = mem.cia.cia_a.read(0xD);
    assert_ne!(icr & 0x08, 0);
    assert!(!mem.cia.cia_a.icr_ir);

    // 2. Verify mouse deltas and button mapping
    mouse.mouse_move(10, -5);
    mouse.mouse_button(true, true);
    mem.mouse_left = true;

    sync_readable_regs(&mut mem.custom_regs, &chipset, false, &mouse);

    // Left mouse button is active-low in CIA-A PRA bit 6, so reading REG_PRA when pressed should have bit 6 clear
    let pra = AddressBus::read_byte(&mut mem, 0x00BF_E001);
    assert_eq!(pra & 0x40, 0); // Bit 6 is 0 (Left mouse button pressed)

    // Right button is active-low in POTGOR bit 10
    let potgor = mem.custom_regs[0x016 / 2];
    assert_eq!(potgor & (1 << 10), 0); // Bit 10 is 0 (Right mouse button pressed)

    // Mouse quadrature counters in JOY0DAT
    let joy0dat = mem.custom_regs[0x00A / 2];
    let x_counter = (joy0dat & 0xFF) as u8;
    let y_counter = ((joy0dat >> 8) & 0xFF) as u8;
    assert_eq!(x_counter, 10);
    assert_eq!(y_counter, 251); // -5 as u8 = 251
}

#[test]
fn keyboard_waits_three_frames_between_keys() {
    let mut keyboard = KeyboardState::new();
    let mut cia = CiaState::new();
    keyboard.key_event(0x20, true);
    keyboard.key_event(0x20, false);
    keyboard.deliver(&mut cia);
    assert_eq!(cia.sdr, !0x40u8);
    assert_eq!(keyboard.len(), 1);
    assert_eq!(keyboard.delay, 3);
    keyboard.deliver(&mut cia);
    assert_eq!(keyboard.len(), 1);
    keyboard.end_frame();
    keyboard.end_frame();
    keyboard.end_frame();
    keyboard.deliver(&mut cia);
    assert_eq!(keyboard.len(), 0);
    // Release code 0xA0 rotated left and inverted.
    assert_eq!(cia.sdr, !0x41u8);
    for k in 0..20u8 {
        keyboard.key_event(k, true);
    }
    assert_eq!(keyboard.len(), 16);
}

#[test]
fn mouse_deltas_saturate_and_counters_wrap() {
    let mut mouse = MouseState::new();
    mouse.mouse_move(i16::MAX, -3);
    mouse.mouse_move(10, -300);
    assert_eq!(mouse.dx, i16::MAX);
    assert_eq!(mouse.dy, -303);
    assert_eq!(mouse.x_counter, ((0x7FFFu32 + 10) % 256) as u8);
    assert_eq!(mouse.y_counter, 0u8.wrapping_sub(47));
    mouse.end_frame();
    assert_eq!((mouse.dx, mouse.dy), (0, 0));
}

#[test]
fn long_reads_cover_chip_and_slow_ram() {
    let chip = vec![0x11, 0x22, 0x33, 0x44, 0x55];
    let slow = vec![0xAA, 0xBB, 0xCC, 0xDD];
    assert_eq!(read_long_phys(&chip, &slow, 0), Some(0x1122_3344));
    assert_eq!(read_long_phys(&chip, &slow, 1), Some(0x2233_4455));
    assert_eq!(read_long_phys(&chip, &slow, 2), None);
    assert_eq!(read_long_phys(&chip, &slow, 0x00C0_0000), Some(0xAABB_CCDD));
    assert_eq!(read_long_phys(&chip, &slow, 0x00C0_0001), None);
}

fn put_long(ram: &mut [u8], addr: usize, v: u32) {
    ram[addr..addr + 4].copy_from_slice(&v.to_be_bytes());
}

#[test]
fn copinit_is_found_through_the_library_list() {
    let mut chip = vec![0u8; 0x4000];
    let mut rom = vec![0u8; 256 * 1024];
    rom[0x100..0x108].copy_from_slice(b"graphics");
    put_long(&mut chip, 4, 0x1000); // ExecBase
    put_long(&mut chip, 0x1000 + 0x17A, 0x2000); // first library node
    put_long(&mut chip, 0x2000, 0x3000); // next node
    put_long(&mut chip, 0x2000 + 10, 0x00FC_0200); // name elsewhere
    put_long(&mut chip, 0x3000, 0); // end of list
    put_long(&mut chip, 0x3000 + 10, 0x00FC_0100); // "graphics"
    put_long(&mut chip, 0x3000 + 0x26, 0x0000_2400); // copinit
    assert_eq!(gfx_copinit(&chip, &[], &rom, 0), (Some(0x2400), 0x3000));
    // The cache is used as is.
    assert_eq!(gfx_copinit(&chip, &[], &rom, 0x2000 - 0x26), (Some(0x3000), 0x2000 - 0x26));
    // No ExecBase, no GfxBase.
    let empty = vec![0u8; 0x4000];
    assert_eq!(gfx_copinit(&empty, &[], &rom, 0), (None, 0));
}

#[test]
fn hand_copper_list_gets_kickstart_colours() {
    let mut chip = vec![0u8; 64];
    let list = [0x0100u16, 0x2200, 0x0180, 0x0FFF, 0x0182, 0x0FFF, 0x0184, 0x0FFF, 0x0186, 0x0FFF];
    for (i, w) in list.iter().enumerate() {
        chip[8 + 2 * i..10 + 2 * i].copy_from_slice(&w.to_be_bytes());
    }
    sync_colormap_to_copper(&mut chip, 8);
    let words: Vec<u16> = (0..10).map(|i| u16::from_be_bytes([chip[8 + 2 * i], chip[9 + 2 * i]])).collect();
    assert_eq!(words, vec![0x0100, 0x2200, 0x0180, 0x0FFF, 0x0182, 0x0000, 0x0184, 0x077C, 0x0186, 0x0BBB]);
    // A second pass leaves the patched list alone.
    let before = chip.clone();
    sync_colormap_to_copper(&mut chip, 8);
    assert_eq!(chip, before);
}

#[test]
fn boot_fixes_touch_only_their_targets() {
    let mut chip = vec![0u8; 0x2000];
    put_long(&mut chip, 4, 0x100);
    put_long(&mut chip, 0x100 + 0x114, 0x800);
    reserve_boot_signal(&mut chip, 4_000_000);
    assert_eq!(chip[0x812], 0);
    reserve_boot_signal(&mut chip, 5_050_000);
    assert_eq!(chip[0x812], 0x80);

    let mut slow = vec![0u8; 0x8000];
    mark_trackdisk_disk_changed(&mut slow);
    assert_eq!(slow[0x4856], 0);
    slow[0x4730] = 1;
    mark_trackdisk_disk_changed(&mut slow);
    assert_eq!(slow[0x4856], 1);
}

#[test]
fn bitplane_modulos_are_signed() {
    let mut bplpt = [0x1000u32, 0x2000, 0x3000, 0x4000, 0x5000, 0x6000, 0x7000, 0x8000];
    apply_bitplane_modulos(&mut bplpt, 8, 0x0010, 0xFFF0);
    assert_eq!(bplpt, [0x1010, 0x1FF0, 0x3010, 0x3FF0, 0x5010, 0x5FF0, 0x7000, 0x8000]);
    let mut low = [0u32; 8];
    apply_bitplane_modulos(&mut low, 1, 0xFFFE, 0);
    assert_eq!(low[0], 0xFFFF_FFFE);
}

#[test]
fn framebuffer_lines_follow_the_display_window() {
    assert_eq!(framebuffer_line(0x2C, 0x2C), Some(0));
    assert_eq!(framebuffer_line(0x2B, 0x2C), None);
    assert_eq!(framebuffer_line(0x2C + 287, 0x2C), Some(287));
    assert_eq!(framebuffer_line(0x2C + 288, 0x2C), None);
}

#[test]
fn interrupt_level_needs_inten() {
    let mut c = CustomChipState::new(VideoStandard::Pal);
    c.intreq = custom::INT_VERTB;
    c.intena = custom::INT_VERTB;
    assert_eq!(cpu_interrupt_level(&c), 0);
    c.intena = custom::INT_VERTB | custom::INT_SETCLR;
    assert_eq!(cpu_interrupt_level(&c), 3);
    c.intreq = custom::INT_VERTB | custom::INT_EXTER;
    c.intena |= custom::INT_EXTER;
    assert_eq!(cpu_interrupt_level(&c), 6);
}

#[test]
fn cia_line_raises_ports_on_underflow() {
    let mut cia = CiaPair::new();
    cia.cia_a.write(rumiga::cia::REG_ICR, 0x81);
    cia.cia_a.timer_a = 10;
    cia.cia_a.cra = 0x01;
    assert_eq!(tick_cia_line(&mut cia), custom::INT_PORTS);
    assert!(cia.cia_a.icr_ir);
    let mut idle = CiaPair::new();
    assert_eq!(tick_cia_line(&mut idle), 0);
}

#[test]
fn copper_line_reports_moves_and_takes_jumps() {
    let mut chip = vec![0u8; 0x100];
    let list = [0x0180u16, 0x0123, 0x008A, 0x0000, 0xFFFF, 0xFFFE];
    for (i, w) in list.iter().enumerate() {
        chip[0x10 + 2 * i..0x12 + 2 * i].copy_from_slice(&w.to_be_bytes());
    }
    let second = [0x0182u16, 0x0456, 0xFFFF, 0xFFFE];
    for (i, w) in second.iter().enumerate() {
        chip[0x40 + 2 * i..0x42 + 2 * i].copy_from_slice(&w.to_be_bytes());
    }
    let mut copper = CopperState::new();
    copper.cop1lc = 0x10;
    copper.cop2lc = 0x40;
    copper.enabled = true;
    copper.restart_vertical_blank();
    let writes = run_copper_line(&mut copper, &chip, 0x30);
    assert_eq!(writes, vec![(0x0180, 0x0123), (0x0182, 0x0456)]);
    let mut off = CopperState::new();
    assert!(run_copper_line(&mut off, &chip, 0x30).is_empty());
}

#[test]
fn playfield_registers_follow_the_shadow() {
    let mut regs = [0u16; 256];
    regs[0x100 / 2] = 0x2200;
    regs[0x08E / 2] = 0x2C81;
    regs[0x180 / 2 + 3] = 0xF123;
    let mut pf = PlayfieldState::new();
    sync_playfield_registers(&mut pf, &regs);
    assert_eq!(pf.bplcon0, 0x2200);
    assert_eq!(pf.diwstrt, 0x2C81);
    assert_eq!(pf.color[3], 0x0123);
}

#[test]
fn readable_registers_show_beam_and_blitter() {
    let mut regs = [0u16; 256];
    let mut c = CustomChipState::new(VideoStandard::Pal);
    c.vpos = 0x105;
    c.hpos = 0x42;
    c.dmacon = 0x8240;
    sync_readable_regs(&mut regs, &c, true, &MouseState::new());
    assert_eq!(regs[custom::VPOSR as usize / 2], 0x8001);
    assert_eq!(regs[custom::VHPOSR as usize / 2], 0x0542);
    assert_eq!(regs[custom::DMACONR as usize / 2], 0x4240);
    assert_eq!(regs[0x016 / 2], 0xFF00);
    assert_eq!(regs[0x07C / 2], 0xFFFF);
}

#[test]
fn floppy_interrupts_are_taken_once() {
    let mut floppy = FloppyController::new();
    floppy.pending_sync_irq = true;
    floppy.pending_blk_irq = true;
    assert_eq!(floppy.take_interrupts(), custom::INT_DSKSYN | custom::INT_DSKBLK);
    assert_eq!(floppy.take_interrupts(), 0);
}

#[test]
fn gayle_ide_interrupt_needs_the_enable() {
    let mut mem = AmigaMemory::new(MemoryConfig::a1200());
    mem.ide.pending_irq = true;
    assert!(!mem.gayle_ide_interrupt());
    assert_eq!(mem.gayle_irq, 0x80);
    mem.gayle_intena = 0x80;
    assert!(mem.gayle_ide_interrupt());
    mem.ide.pending_irq = false;
    mem.gayle_irq = 0;
    assert!(!mem.gayle_ide_interrupt());
}

#[test]
fn finished_blit_takes_the_returned_registers() {
    let mut current = BlitterState::new();
    current.busy = true;
    let mut done = BlitterState::new();
    done.bltapt = 0x1234;
    finish_completed_blitter(&mut current, Some(done));
    assert_eq!(current.bltapt, 0x1234);
    assert!(!current.busy && current.done);
    let mut other = BlitterState::new();
    other.busy = true;
    other.bltdpt = 0x40;
    finish_completed_blitter(&mut other, None);
    assert_eq!(other.bltdpt, 0x40);
    assert!(!other.busy && other.done);
}
