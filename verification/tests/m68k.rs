use rumiga::m68k::cpu::{CpuCore, CpuException, CFLAG_SET, NVFLAG_SET, RUN_MODE_BERR_AERR_RESET};
use rumiga::m68k::ea::{sign_extend_byte, sign_extend_word, AddressingMode, EaResult};
use rumiga::m68k::fpu::{
    extended_to_double_bits, fpu_condition, read_u64_be, write_u64_be, DOUBLE_INFINITY, DOUBLE_NAN, DOUBLE_NEG_INFINITY,
    FPCC_N, FPCC_NAN, FPCC_Z,
};
use rumiga::m68k::memory::{AddressBus, BusFault, BusFaultKind};
use rumiga::m68k::mul_div::{DIVS_CYCLES, DIVU_CYCLES, MULTIPLY_CYCLES, OPERAND_FAULT_CYCLES};
use rumiga::m68k::types::{pow2_u64, CpuType, Size};

struct TestBus {
    mem: Vec<u8>,
    fail: bool,
}

impl TestBus {
    fn new(size: usize) -> Self {
        TestBus { mem: vec![0; size], fail: false }
    }

    fn put_word(&mut self, addr: usize, value: u16) {
        self.mem[addr] = (value >> 8) as u8;
        self.mem[addr + 1] = value as u8;
    }
}

impl AddressBus for TestBus {
    fn read_byte(&mut self, address: u32) -> u8 {
        self.mem[address as usize % self.mem.len()]
    }

    fn read_word(&mut self, address: u32) -> u16 {
        (u16::from(self.read_byte(address)) << 8) | u16::from(self.read_byte(address + 1))
    }

    fn read_long(&mut self, address: u32) -> u32 {
        (u32::from(self.read_word(address)) << 16) | u32::from(self.read_word(address + 2))
    }

    fn write_byte(&mut self, address: u32, value: u8) {
        let len = self.mem.len();
        self.mem[address as usize % len] = value;
    }

    fn write_word(&mut self, address: u32, value: u16) {
        self.write_byte(address, (value >> 8) as u8);
        self.write_byte(address + 1, value as u8);
    }

    fn write_long(&mut self, address: u32, value: u32) {
        self.write_word(address, (value >> 16) as u16);
        self.write_word(address + 2, value as u16);
    }

    fn try_read_word(&mut self, address: u32) -> Result<u16, BusFault> {
        if self.fail {
            Err(BusFault { kind: BusFaultKind::BusError, address })
        } else {
            Ok(self.read_word(address))
        }
    }
}

fn cpu() -> CpuCore {
    CpuCore::new(CpuType::M68000)
}

#[test]
fn size_masks_and_widths() {
    assert_eq!(Size::Byte.mask(), 0xFF);
    assert_eq!(Size::Word.msb_mask(), 0x8000);
    assert_eq!(Size::Long.bits(), 32);
    assert_eq!(Size::Long.bytes(), 4);
    assert_eq!(Size::Word.modulus(), 0x1_0000);
    assert_eq!(pow2_u64(33), 0x2_0000_0000);
}

#[test]
fn new_core_uses_24_bit_addresses_on_the_68000() {
    assert_eq!(CpuCore::new(CpuType::M68000).address_mask, 0x00FF_FFFF);
    assert_eq!(CpuCore::new(CpuType::M68020).address_mask, 0xFFFF_FFFF);
    assert_eq!(CpuCore::new(CpuType::M68000).address(0x1234_5678), 0x0034_5678);
}

#[test]
fn lsl_shifts_out_the_top_bit_into_carry_and_extend() {
    let mut c = cpu();
    let (r, cycles) = c.exec_lsl(Size::Byte, 1, 0x81);
    assert_eq!(r, 0x02);
    assert_eq!(cycles, 8);
    assert_eq!(c.c_flag, CFLAG_SET);
    assert_eq!(c.x_flag, CFLAG_SET);
    assert_eq!(c.v_flag, 0);
    assert_eq!(c.n_flag, 0);
    assert_eq!(c.not_z_flag, 0x02);
}

#[test]
fn lsl_by_the_width_keeps_bit_zero_as_carry() {
    let mut c = cpu();
    assert_eq!(c.exec_lsl(Size::Long, 32, 1).0, 0);
    assert_eq!(c.c_flag, CFLAG_SET);
    assert_eq!(c.exec_lsl(Size::Long, 33, 1).0, 0);
    assert_eq!(c.c_flag, 0);
}

#[test]
fn lsr_shifts_in_zeros() {
    let mut c = cpu();
    assert_eq!(c.exec_lsr(Size::Word, 4, 0x1234), (0x0123, 14));
    assert_eq!(c.c_flag, 0);
    assert_eq!(c.exec_lsr(Size::Word, 1, 0xFFFF_8001), (0x4000, 8));
    assert_eq!(c.c_flag, CFLAG_SET);
}

#[test]
fn asl_sets_overflow_when_the_sign_changes() {
    let mut c = cpu();
    assert_eq!(c.exec_asl(Size::Byte, 1, 0x40).0, 0x80);
    assert_eq!(c.v_flag, NVFLAG_SET);
    assert_eq!(c.n_flag, NVFLAG_SET);
    assert_eq!(c.c_flag, 0);
    assert_eq!(c.exec_asl(Size::Byte, 1, 0xC0).0, 0x80);
    assert_eq!(c.v_flag, 0);
    assert_eq!(c.c_flag, CFLAG_SET);
    assert_eq!(c.exec_asl(Size::Byte, 9, 0x01).0, 0x00);
    assert_eq!(c.v_flag, NVFLAG_SET);
    assert_eq!(c.c_flag, 0);
}

#[test]
fn asr_copies_the_sign_bit() {
    let mut c = cpu();
    assert_eq!(c.exec_asr(Size::Byte, 1, 0x81).0, 0xC0);
    assert_eq!(c.c_flag, CFLAG_SET);
    assert_eq!(c.n_flag, NVFLAG_SET);
    assert_eq!(c.exec_asr(Size::Byte, 9, 0x80).0, 0xFF);
    assert_eq!(c.c_flag, CFLAG_SET);
    assert_eq!(c.exec_asr(Size::Word, 2, 0x0007).0, 0x0001);
    assert_eq!(c.c_flag, CFLAG_SET);
}

#[test]
fn zero_count_shift_clears_carry_and_keeps_extend() {
    let mut c = cpu();
    c.x_flag = CFLAG_SET;
    c.c_flag = CFLAG_SET;
    c.v_flag = NVFLAG_SET;
    assert_eq!(c.exec_asl(Size::Word, 64, 0x1_8000), (0x1_8000, 6));
    assert_eq!(c.c_flag, 0);
    assert_eq!(c.v_flag, 0);
    assert_eq!(c.x_flag, CFLAG_SET);
    assert_eq!(c.n_flag, NVFLAG_SET);
}

#[test]
fn rol_and_ror_rotate_through_carry_only() {
    let mut c = cpu();
    c.x_flag = 0;
    assert_eq!(c.exec_rol(Size::Byte, 1, 0x81).0, 0x03);
    assert_eq!(c.c_flag, CFLAG_SET);
    assert_eq!(c.x_flag, 0);
    assert_eq!(c.exec_ror(Size::Byte, 1, 0x81).0, 0xC0);
    assert_eq!(c.c_flag, CFLAG_SET);
    assert_eq!(c.exec_rol(Size::Word, 16, 0x8001), (0x8001, 38));
    assert_eq!(c.c_flag, CFLAG_SET);
    assert_eq!(c.exec_ror(Size::Long, 8, 0x1234_5678).0, 0x7812_3456);
}

#[test]
fn roxl_and_roxr_rotate_through_extend() {
    let mut c = cpu();
    c.x_flag = 0;
    assert_eq!(c.exec_roxl(Size::Byte, 1, 0x80).0, 0x00);
    assert_eq!(c.x_flag, CFLAG_SET);
    assert_eq!(c.c_flag, CFLAG_SET);
    assert_eq!(c.not_z_flag, 0);
    assert_eq!(c.exec_roxr(Size::Byte, 1, 0x01).0, 0x80);
    assert_eq!(c.x_flag, CFLAG_SET);
    assert_eq!(c.exec_roxl(Size::Byte, 9, 0x5A).0, 0x5A);
    assert_eq!(c.c_flag, CFLAG_SET);
    assert_eq!(c.exec_roxl(Size::Long, 33, 0xDEAD_BEEF).0, 0xDEAD_BEEF);
}

#[test]
fn rotate_left_then_right_restores_the_operand() {
    let mut c = cpu();
    for count in 1..40u32 {
        let (left, _) = c.exec_rol(Size::Word, count, 0xB00F);
        let (back, _) = c.exec_ror(Size::Word, count, left);
        assert_eq!(back, 0xB00F);
    }
}

#[test]
fn decode_covers_all_modes() {
    assert_eq!(AddressingMode::decode(0, 3), Some(AddressingMode::DataDirect(3)));
    assert_eq!(AddressingMode::decode(6, 1), Some(AddressingMode::Index(1)));
    assert_eq!(AddressingMode::decode(7, 4), Some(AddressingMode::Immediate));
    assert_eq!(AddressingMode::decode(7, 5), None);
    assert_eq!(AddressingMode::decode(8, 0), None);
    assert!(AddressingMode::AddressDirect(2).is_register_direct());
    assert!(!AddressingMode::AddressIndirect(2).is_register_direct());
}

#[test]
fn postincrement_and_predecrement_move_the_address_register() {
    let mut c = cpu();
    let mut bus = TestBus::new(0x1000);
    c.dar[8 + 7] = 0x100;
    assert_eq!(c.resolve_ea(&mut bus, AddressingMode::PostIncrement(7), Size::Byte), EaResult::Memory(0x100));
    assert_eq!(c.a(7), 0x102);
    c.dar[8] = 0x100;
    assert_eq!(c.resolve_ea(&mut bus, AddressingMode::PreDecrement(0), Size::Long), EaResult::Memory(0xFC));
    assert_eq!(c.a(0), 0xFC);
}

#[test]
fn displacement_and_index_modes_read_extension_words() {
    let mut c = cpu();
    let mut bus = TestBus::new(0x1000);
    c.pc = 0x200;
    bus.put_word(0x200, 0xFFFE);
    bus.put_word(0x202, 0x1004);
    bus.put_word(0x204, 0x8000);
    c.dar[8] = 0x100;
    c.dar[1] = 0x10;
    assert_eq!(c.resolve_ea(&mut bus, AddressingMode::Displacement(0), Size::Word), EaResult::Memory(0xFE));
    assert_eq!(c.resolve_ea(&mut bus, AddressingMode::Index(0), Size::Word), EaResult::Memory(0x114));
    assert_eq!(c.resolve_ea(&mut bus, AddressingMode::AbsoluteShort, Size::Word), EaResult::Memory(0xFFFF_8000));
    assert_eq!(c.pc, 0x206);
}

#[test]
fn index_mode_scales_the_index_on_the_68020() {
    let mut c = CpuCore::new(CpuType::M68020);
    let mut bus = TestBus::new(0x1000);
    c.pc = 0x200;
    // D1.L * 2 + 4 over A0.
    bus.put_word(0x200, 0x1A04);
    // D1.L * 4 + 4 over A0.
    bus.put_word(0x202, 0x1C04);
    c.dar[8] = 0x100;
    c.dar[1] = 0x10;
    assert_eq!(c.resolve_ea(&mut bus, AddressingMode::Index(0), Size::Word), EaResult::Memory(0x124));
    assert_eq!(c.resolve_ea(&mut bus, AddressingMode::Index(0), Size::Word), EaResult::Memory(0x144));
    assert_eq!(c.pc, 0x204);
}

#[test]
fn immediate_at_the_top_of_the_address_space_wraps_the_program_counter() {
    let mut c = CpuCore::new(CpuType::M68020);
    let mut bus = TestBus::new(16);
    c.pc = 0xFFFF_FFFE;
    assert_eq!(c.resolve_ea(&mut bus, AddressingMode::Immediate, Size::Long), EaResult::Immediate(0xFFFF_FFFE));
    assert_eq!(c.pc, 2);
}

#[test]
fn immediate_operands_advance_the_program_counter() {
    let mut c = cpu();
    let mut bus = TestBus::new(16);
    c.pc = 8;
    assert_eq!(c.resolve_ea(&mut bus, AddressingMode::Immediate, Size::Long), EaResult::Immediate(8));
    assert_eq!(c.pc, 12);
}

#[test]
fn odd_program_counter_raises_an_address_error() {
    let mut c = cpu();
    let mut bus = TestBus::new(16);
    c.pc = 3;
    assert_eq!(c.read_imm_16(&mut bus), 0);
    assert_eq!(c.pc, 3);
    assert_eq!(c.run_mode, RUN_MODE_BERR_AERR_RESET);
    assert_eq!(
        c.pending_exception,
        Some(CpuException::AddressError { address: 3, write: false, instruction: true })
    );
    assert_eq!(c.resolve_ea(&mut bus, AddressingMode::PostIncrement(0), Size::Word), EaResult::Memory(0));
}

#[test]
fn bus_faults_raise_a_bus_error() {
    let mut c = cpu();
    let mut bus = TestBus::new(16);
    bus.fail = true;
    c.pc = 4;
    assert_eq!(c.read_imm_16(&mut bus), 0);
    assert_eq!(
        c.pending_exception,
        Some(CpuException::BusError { address: 4, write: false, instruction: true })
    );
}

#[test]
fn immediate_reads_return_the_stream_and_advance() {
    let mut c = cpu();
    let mut bus = TestBus::new(16);
    bus.put_word(0, 0x1234);
    bus.put_word(2, 0x5678);
    bus.put_word(4, 0x9ABC);
    assert_eq!(c.read_imm_32(&mut bus), 0x1234_5678);
    assert_eq!(c.read_imm_8(&mut bus), 0xBC);
    assert_eq!(c.pc, 6);
}

#[test]
fn sign_extension_patterns() {
    assert_eq!(sign_extend_word(0x8000), 0xFFFF_8000);
    assert_eq!(sign_extend_word(0x7FFF), 0x7FFF);
    assert_eq!(sign_extend_byte(0xFE), 0xFFFF_FFFE);
}

#[test]
fn mulu_multiplies_low_words() {
    let mut c = cpu();
    let mut bus = TestBus::new(16);
    c.dar[0] = 0xFFFF_0004;
    c.dar[1] = 0x0003;
    assert_eq!(c.exec_mulu(&mut bus, AddressingMode::DataDirect(1), 0), MULTIPLY_CYCLES);
    assert_eq!(c.d(0), 12);
    assert_eq!(c.not_z_flag, 12);
    c.dar[2] = 0xFFFF;
    assert_eq!(c.exec_mulu(&mut bus, AddressingMode::DataDirect(2), 2), MULTIPLY_CYCLES);
    assert_eq!(c.d(2), 0xFFFE_0001);
    assert_eq!(c.n_flag, NVFLAG_SET);
}

#[test]
fn muls_multiplies_signed_words() {
    let mut c = cpu();
    let mut bus = TestBus::new(16);
    c.dar[0] = 5;
    c.dar[1] = 0xFFFF;
    assert_eq!(c.exec_muls(&mut bus, AddressingMode::DataDirect(1), 0), MULTIPLY_CYCLES);
    assert_eq!(c.d(0), 0xFFFF_FFFB);
    assert_eq!(c.n_flag, NVFLAG_SET);
}

#[test]
fn mulu_reads_memory_operands() {
    let mut c = cpu();
    let mut bus = TestBus::new(0x200);
    bus.put_word(0x100, 0x0010);
    c.dar[8] = 0x100;
    c.dar[1] = 3;
    assert_eq!(c.exec_mulu(&mut bus, AddressingMode::AddressIndirect(0), 1), MULTIPLY_CYCLES);
    assert_eq!(c.d(1), 48);
    c.dar[8] = 0x101;
    assert_eq!(c.exec_mulu(&mut bus, AddressingMode::AddressIndirect(0), 1), OPERAND_FAULT_CYCLES);
    assert_eq!(c.run_mode, RUN_MODE_BERR_AERR_RESET);
    assert_eq!(c.d(1), 48);
}

#[test]
fn divu_stores_remainder_and_quotient() {
    let mut c = cpu();
    let mut bus = TestBus::new(16);
    c.dar[0] = 100;
    c.dar[1] = 7;
    assert_eq!(c.exec_divu(&mut bus, AddressingMode::DataDirect(1), 0), DIVU_CYCLES);
    assert_eq!(c.d(0), 0x0002_000E);
    c.dar[0] = 0x1_0000;
    c.dar[1] = 1;
    assert_eq!(c.exec_divu(&mut bus, AddressingMode::DataDirect(1), 0), DIVU_CYCLES);
    assert_eq!(c.v_flag, NVFLAG_SET);
    assert_eq!(c.d(0), 0x1_0000);
}

#[test]
fn divide_by_zero_raises_the_trap() {
    let mut c = cpu();
    let mut bus = TestBus::new(16);
    c.dar[0] = 100;
    assert_eq!(c.exec_divu(&mut bus, AddressingMode::DataDirect(1), 0), 38);
    assert_eq!(c.pending_exception, Some(CpuException::ZeroDivide));
    assert_eq!(c.d(0), 100);
}

#[test]
fn divs_rounds_towards_zero() {
    let mut c = cpu();
    let mut bus = TestBus::new(16);
    c.dar[0] = 0xFFFF_FFF9;
    c.dar[1] = 2;
    assert_eq!(c.exec_divs(&mut bus, AddressingMode::DataDirect(1), 0), DIVS_CYCLES);
    assert_eq!(c.d(0), 0xFFFF_FFFD);
    assert_eq!(c.n_flag, NVFLAG_SET);
    c.dar[0] = 0x8000_0000;
    c.dar[1] = 0xFFFF;
    assert_eq!(c.exec_divs(&mut bus, AddressingMode::DataDirect(1), 0), DIVS_CYCLES);
    assert_eq!(c.d(0), 0);
    c.dar[0] = 0x0010_0000;
    c.dar[1] = 1;
    c.sst_m68000_compat = true;
    assert_eq!(c.exec_divs(&mut bus, AddressingMode::DataDirect(1), 0), DIVS_CYCLES);
    assert_eq!(c.v_flag, NVFLAG_SET);
    assert_eq!(c.not_z_flag, 1);
    assert_eq!(c.d(0), 0x0010_0000);
}

#[test]
fn fpu_conditions_follow_the_fpsr_codes() {
    assert!(fpu_condition(FPCC_Z, 0x01));
    assert!(!fpu_condition(0, 0x01));
    assert!(fpu_condition(0, 0x12));
    assert!(!fpu_condition(FPCC_N, 0x12));
    assert!(fpu_condition(FPCC_N, 0x14));
    assert!(!fpu_condition(FPCC_N | FPCC_NAN, 0x14));
    assert!(fpu_condition(FPCC_NAN, 0x18));
    assert!(!fpu_condition(FPCC_NAN, 0x0E));
    assert!(fpu_condition(0, 0x0F));
    assert!(!fpu_condition(0xFFFF_FFFF, 0x00));
    // The IEEE-aware predicates are not supported.
    assert!(!fpu_condition(FPCC_Z, 0x02));
}

#[test]
fn fbcc_branches_from_the_extension_word() {
    let mut c = CpuCore::new(CpuType::M68040);
    c.ppc = 0x1000;
    c.pc = 0x1004;
    c.fpsr = rumiga::m68k::fpu::FPCC_Z;
    assert_eq!(c.exec_fbcc(0x01, 0x20), 8);
    assert_eq!(c.pc, 0x1022);
    assert!(c.change_of_flow);
    let mut d = CpuCore::new(CpuType::M68040);
    d.ppc = 0x1000;
    d.pc = 0x1004;
    assert_eq!(d.exec_fbcc(0x01, -0x10), 8);
    assert_eq!(d.pc, 0x1004);
    d.fpsr = rumiga::m68k::fpu::FPCC_Z;
    d.exec_fbcc(0x01, -0x10);
    assert_eq!(d.pc, 0x0FF2);
}

#[test]
fn fscc_sets_a_data_register_byte_or_memory() {
    let mut bus = TestBus::new(0x100);
    let mut c = CpuCore::new(CpuType::M68040);
    c.dar[3] = 0x1234_5678;
    assert_eq!(c.exec_fscc(&mut bus, 0, 3, 0x0F), 4);
    assert_eq!(c.dar[3], 0x1234_56FF);
    c.exec_fscc(&mut bus, 0, 3, 0x00);
    assert_eq!(c.dar[3], 0x1234_5600);
    c.dar[8 + 2] = 0x40;
    c.exec_fscc(&mut bus, 2, 2, 0x1F);
    assert_eq!(bus.mem[0x40], 0xFF);
}

#[test]
fn fsave_writes_a_null_frame_after_reset_and_frestore_reads_it() {
    let mut bus = TestBus::new(0x200);
    let mut c = CpuCore::new(CpuType::M68040);
    c.dar[8 + 7] = 0x100;
    c.fpcr = 0x30;
    // FSAVE -(A7): null frame, one longword.
    assert_eq!(c.exec_fpu_op1(&mut bus, 0xF327), 8);
    assert_eq!(c.dar[15], 0xFC);
    assert_eq!(&bus.mem[0xFC..0x100], &[0, 0, 0, 0]);
    // FRESTORE (A7)+ of a null frame resets the FPU.
    c.fpu_just_reset = false;
    assert_eq!(c.exec_fpu_op1(&mut bus, 0xF35F), 8);
    assert_eq!(c.dar[15], 0x100);
    assert!(c.fpu_just_reset);
    assert_eq!(c.fpcr, 0);
    // Out of the reset state FSAVE stores an idle frame of seven longwords.
    c.fpu_just_reset = false;
    c.exec_fpu_op1(&mut bus, 0xF327);
    assert_eq!(c.dar[15], 0x100 - 28);
    assert_eq!(&bus.mem[0xE4..0xE8], &[0x1F, 0x18, 0, 0]);
    assert_eq!(&bus.mem[0xFC..0x100], &[0x70, 0, 0, 0]);
    // FRESTORE (A7)+ of the idle frame skips it.
    assert_eq!(c.exec_fpu_op1(&mut bus, 0xF35F), 8);
    assert_eq!(c.dar[15], 0x100);
    assert!(!c.fpu_just_reset);
    // Other operations are left to the line 1111 trap.
    assert_eq!(c.exec_fpu_op1(&mut bus, 0xF3A7), 0);
}

#[test]
fn fpu_long_operands_and_u64_helpers() {
    let mut bus = TestBus::new(0x100);
    let mut c = CpuCore::new(CpuType::M68040);
    c.dar[1] = 0xFFFF_FFFE;
    assert_eq!(c.exec_fpu_read_ea_long(&mut bus, 0x0001), Some(-2));
    write_u64_be(&mut c, &mut bus, 0x20, 0x0102_0304_0506_0708);
    assert_eq!(read_u64_be(&mut c, &mut bus, 0x20), 0x0102_0304_0506_0708);
    c.dar[8 + 4] = 0x20;
    assert_eq!(c.exec_fpu_read_ea_long(&mut bus, 0x001C), Some(0x0102_0304));
    assert_eq!(c.dar[12], 0x24);
    assert_eq!(c.exec_fpu_read_ea_long(&mut bus, 0x003B), None);
}

#[test]
fn fmove_moves_control_registers() {
    let mut bus = TestBus::new(0x200);
    let mut c = CpuCore::new(CpuType::M68040);
    c.dar[2] = 0x0000_0030;
    // FMOVE.L D2,FPCR; the extension word is consumed from PC.
    bus.put_word(0, 0x9000);
    assert_eq!(c.exec_fmove_to_control(&mut bus, 0xF202, 0x9000), 4);
    assert_eq!(c.pc, 2);
    assert_eq!(c.fpcr, 0x30);
    assert_eq!(c.fpsr, 0);
    // FMOVE.L FPSR,D3 and FPCR,D3.
    c.fpsr = 0x0800_0000;
    c.exec_fmove_from_control(&mut bus, 0xF203, 0xA800);
    assert_eq!(c.dar[3], 0x0800_0000);
    c.exec_fmove_from_control(&mut bus, 0xF203, 0xB000);
    assert_eq!(c.dar[3], 0x30);
    // FMOVEM FPCR/FPSR to (A1): both in turn.
    c.dar[8 + 1] = 0x80;
    c.exec_fmove_from_control(&mut bus, 0xF211, 0xB800);
    assert_eq!(&bus.mem[0x80..0x88], &[0, 0, 0, 0x30, 0x08, 0, 0, 0]);
}

#[test]
fn fmovem_stores_and_loads_register_slots() {
    let mut bus = TestBus::new(0x200);
    let mut c = CpuCore::new(CpuType::M68040);
    c.fpr[0] = 0x3FF0_0000_0000_0000;
    c.fpr[2] = 0x4000_0000_0000_0000;
    c.dar[8 + 6] = 0x100;
    // FMOVEM FP0/FP2,-(A6)
    assert_eq!(c.exec_fmovem(&mut bus, 0xF226, 0xE805), 8);
    assert_eq!(c.dar[14], 0xE8);
    assert_eq!(&bus.mem[0xE8..0xF4], &[0, 0, 0, 0, 0x3F, 0xF0, 0, 0, 0, 0, 0, 0]);
    assert_eq!(&bus.mem[0xF4..0xFC], &[0, 0, 0, 0, 0x40, 0, 0, 0]);
    // FMOVEM (A6)+,FP0/FP2 into a fresh core.
    let mut d = CpuCore::new(CpuType::M68040);
    d.dar[8 + 6] = 0xE8;
    assert_eq!(d.exec_fmovem(&mut bus, 0xF21E, 0xC805), 8);
    assert_eq!(d.dar[14], 0x100);
    assert_eq!(d.fpr[0], 0x3FF0_0000_0000_0000);
    assert_eq!(d.fpr[2], 0x4000_0000_0000_0000);
    assert_eq!(d.fpr[1], rumiga::m68k::cpu::FPR_RESET_NAN);
}

#[test]
fn extended_precision_converts_to_double_bits() {
    assert_eq!(extended_to_double_bits(0x3FFF, 0x8000_0000_0000_0000), 1.0f64.to_bits());
    assert_eq!(extended_to_double_bits(0x3FFF, 0xC000_0000_0000_0000), 1.5f64.to_bits());
    assert_eq!(extended_to_double_bits(0xC000, 0x8000_0000_0000_0000), (-2.0f64).to_bits());
    assert_eq!(extended_to_double_bits(0x8000, 0), (-0.0f64).to_bits());
    assert_eq!(extended_to_double_bits(0, 0), 0);
    assert_eq!(extended_to_double_bits(0x7FFF, 0), DOUBLE_INFINITY);
    assert_eq!(extended_to_double_bits(0xFFFF, 0), DOUBLE_NEG_INFINITY);
    assert_eq!(extended_to_double_bits(0x7FFF, 1), DOUBLE_NAN);
    assert_eq!(DOUBLE_NAN, f64::NAN.to_bits());
    // Beyond the double's exponent range: infinity above, +0 below.
    assert_eq!(extended_to_double_bits(0xFFFE, 0x8000_0000_0000_0000), DOUBLE_NEG_INFINITY);
    assert_eq!(extended_to_double_bits(0x8001, 0x8000_0000_0000_0000), 0);
}

#[test]
fn fpu_double_and_extended_operands() {
    let mut bus = TestBus::new(0x100);
    let mut c = CpuCore::new(CpuType::M68040);
    write_u64_be(&mut c, &mut bus, 0x20, 0x4009_21FB_5444_2D18);
    c.dar[8 + 4] = 0x20;
    // (A4)+ reads eight bytes and moves A4 past them.
    assert_eq!(c.exec_fpu_read_ea_double_bits(&mut bus, 0x001C), Some(0x4009_21FB_5444_2D18));
    assert_eq!(c.dar[12], 0x28);
    // -(A4) moves A4 back first.
    assert_eq!(c.exec_fpu_read_ea_double_bits(&mut bus, 0x0024), Some(0x4009_21FB_5444_2D18));
    assert_eq!(c.dar[12], 0x20);
    // A data register cannot hold a double.
    assert_eq!(c.exec_fpu_read_ea_double_bits(&mut bus, 0x0001), None);
    bus.put_word(0x40, 0x3FFF);
    write_u64_be(&mut c, &mut bus, 0x44, 0x8000_0000_0000_0000);
    c.dar[8 + 2] = 0x40;
    assert_eq!(c.exec_fpu_read_ea_extended_raw(&mut bus, 0x0012), Some((0x3FFF, 0x8000_0000_0000_0000)));
    assert_eq!(c.dar[10], 0x40);
    c.dar[8 + 2] = 0x4C;
    assert_eq!(c.exec_fpu_read_ea_extended_raw(&mut bus, 0x0022), Some((0x3FFF, 0x8000_0000_0000_0000)));
    assert_eq!(c.dar[10], 0x40);
    assert_eq!(c.exec_fpu_read_ea_extended_raw(&mut bus, 0x003C), None);
}

#[test]
fn fmove_out_stores_converted_values() {
    let mut bus = TestBus::new(0x100);
    let mut c = CpuCore::new(CpuType::M68040);
    // Long integer to D3: the low longword.
    assert_eq!(c.exec_fmove_out(&mut bus, 0x0003, 0, 0x1_2345_6789), 4);
    assert_eq!(c.dar[3], 0x2345_6789);
    // Double to (A1): high longword first.
    c.dar[8 + 1] = 0x60;
    assert_eq!(c.exec_fmove_out(&mut bus, 0x0011, 5, 0x3FF0_0000_0000_0001), 4);
    assert_eq!(&bus.mem[0x60..0x68], &[0x3F, 0xF0, 0, 0, 0, 0, 0, 1]);
    // Single to (A1).
    assert_eq!(c.exec_fmove_out(&mut bus, 0x0011, 1, 0x3F80_0000), 4);
    assert_eq!(&bus.mem[0x60..0x64], &[0x3F, 0x80, 0, 0]);
    // Packed decimal is not handled.
    assert_eq!(c.exec_fmove_out(&mut bus, 0x0011, 3, 0), 0);
}
