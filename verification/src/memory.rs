//! Machine memory configurations and the Amiga memory map as the CPU reads it.

use vstd::prelude::*;
use crate::a2065::{spec_card_wf, spec_disable, spec_enable, spec_new_disabled, A2065View, A2065};
use crate::chipset::{apply_set_clear, spec_set_clear};
use crate::cia::{CiaPair, CiaState};
use crate::custom::BEAMCON0_PAL;
use crate::ide::{
    spec_ata_new, spec_byte_port_ok, spec_command_ok, spec_commit_ok, spec_read_data_word, spec_read_register,
    spec_write_data_word, spec_write_register, AtaController, AtaView,
};
use crate::m68k::memory::AddressBus;
use crate::m68k::types::CpuType;
use crate::network::MacAddress;

verus! {

/// Custom chip register address range.
pub const CUSTOM_BASE: u32 = 0x00DF_F000;
pub const CUSTOM_END: u32 = 0x00E0_0000;

/// CIA-A base address (odd bytes).
pub const CIA_A_BASE: u32 = 0x00BF_E001;
/// CIA-B base address (even bytes).
pub const CIA_B_BASE: u32 = 0x00BF_D000;
/// CIA address space end.
pub const CIA_END: u32 = 0x00C0_0000;

/// Kickstart ROM base (256KB mapped at 0xFC0000 for 512KB ROM, or 0xF80000).
pub const ROM_BASE_256K: u32 = 0x00FC_0000;
pub const ROM_BASE_512K: u32 = 0x00F8_0000;
pub const ROM_END: u32 = 0x0100_0000;

/// End of the chip RAM region and its mirrors.
pub const CHIP_REGION_END: u32 = 0x0020_0000;
/// Fast RAM region.
pub const FAST_RAM_START: u32 = 0x0020_0000;
pub const FAST_RAM_END: u32 = 0x00A0_0000;
/// Slow RAM region.
pub const SLOW_RAM_START: u32 = 0x00C0_0000;
pub const SLOW_RAM_END: u32 = 0x00C8_0000;
/// ROM mirror region (ECS Agnus).
pub const ROM_MIRROR_START: u32 = 0x00E0_0000;
pub const ROM_MIRROR_END: u32 = 0x00E8_0000;

/// PCMCIA and Gayle address spaces.
pub const PCMCIA_COMMON_START: u32 = 0x0060_0000;
pub const PCMCIA_COMMON_END: u32 = 0x00A0_0000;
pub const PCMCIA_ATTR_START: u32 = 0x00A0_0000;
pub const PCMCIA_ATTR_END: u32 = 0x00A8_0000;
pub const GAYLE_LOW_START: u32 = 0x00D8_0000;
pub const GAYLE_LOW_END: u32 = 0x00DD_0000;
pub const GAYLE_HIGH_START: u32 = 0x00DD_0000;
pub const GAYLE_HIGH_END: u32 = 0x00DF_0000;
pub const GAYLE_IDE_START: u32 = 0x00DA_0000;
pub const GAYLE_IDE_END: u32 = 0x00DA_4000;
pub const GAYLE_CS_ADDR: u32 = 0x00DA_8000;
pub const GAYLE_IRQ_ADDR: u32 = 0x00DA_9000;
pub const GAYLE_INT_ADDR: u32 = 0x00DA_A000;
pub const GAYLE_CFG_ADDR: u32 = 0x00DA_B000;
/// Offset within Gayle high space of the serial ID register.
pub const GAYLE_ID_OFFSET: u32 = 0x1000;
/// Gayle interrupt request bit of the IDE drive.
pub const GAYLE_IRQ_IDE: u8 = 0x80;

/// Memory configuration for a specific Amiga model.
#[derive(Clone, Copy, Debug)]
pub struct MemoryConfig {
    /// Chip RAM size in bytes (512KB, 1MB, or 2MB).
    pub chip_ram_size: u32,
    /// Slow RAM size in bytes (0 or 512KB at 0xC00000).
    pub slow_ram_size: u32,
    /// Fast RAM size in bytes (0–8MB at 0x200000).
    pub fast_ram_size: u32,
    /// ROM size in bytes (256KB or 512KB).
    pub rom_size: u32,
    /// CPU type (M68000, M68020, etc).
    pub cpu_type: CpuType,
    /// Whether CIA accesses use Gayle/Fat Gary single-CIA chip-select decoding.
    pub gayle_cia_decode: bool,
}

impl MemoryConfig {
    /// Amiga 500: 512KB chip, no slow or fast RAM, 256KB ROM, 68000.
    pub fn a500() -> (r: Self)
        ensures
            r.chip_ram_size == 512 * 1024 && r.slow_ram_size == 0 && r.fast_ram_size == 0,
            r.rom_size == 256 * 1024 && r.cpu_type == CpuType::M68000 && !r.gayle_cia_decode,
    {
        MemoryConfig {
            chip_ram_size: 512 * 1024,
            slow_ram_size: 0,
            fast_ram_size: 0,
            rom_size: 256 * 1024,
            cpu_type: CpuType::M68000,
            gayle_cia_decode: false,
        }
    }

    /// Amiga 500+: 1MB chip, no slow, no fast, 512KB ROM, 68000.
    pub fn a500_plus() -> (r: Self)
        ensures
            r.chip_ram_size == 1024 * 1024 && r.slow_ram_size == 0 && r.fast_ram_size == 0,
            r.rom_size == 512 * 1024 && r.cpu_type == CpuType::M68000 && !r.gayle_cia_decode,
    {
        MemoryConfig {
            chip_ram_size: 1024 * 1024,
            slow_ram_size: 0,
            fast_ram_size: 0,
            rom_size: 512 * 1024,
            cpu_type: CpuType::M68000,
            gayle_cia_decode: false,
        }
    }

    /// Amiga 600: 1MB chip, Gayle IDE/CIA decode, 512KB ROM, 68000.
    pub fn a600() -> (r: Self)
        ensures
            r.chip_ram_size == 1024 * 1024 && r.slow_ram_size == 0 && r.fast_ram_size == 0,
            r.rom_size == 512 * 1024 && r.cpu_type == CpuType::M68000 && r.gayle_cia_decode,
    {
        MemoryConfig {
            chip_ram_size: 1024 * 1024,
            slow_ram_size: 0,
            fast_ram_size: 0,
            rom_size: 512 * 1024,
            cpu_type: CpuType::M68000,
            gayle_cia_decode: true,
        }
    }

    /// Amiga 1200: 2MB chip, no slow, no fast, 512KB ROM, 68020, Gayle decode.
    pub fn a1200() -> (r: Self)
        ensures
            r.chip_ram_size == 2 * 1024 * 1024 && r.slow_ram_size == 0 && r.fast_ram_size == 0,
            r.rom_size == 512 * 1024 && r.cpu_type == CpuType::M68020 && r.gayle_cia_decode,
    {
        MemoryConfig {
            chip_ram_size: 2 * 1024 * 1024,
            slow_ram_size: 0,
            fast_ram_size: 0,
            rom_size: 512 * 1024,
            cpu_type: CpuType::M68020,
            gayle_cia_decode: true,
        }
    }
}

/// Where a CPU byte read lands in the memory map.
#[derive(Clone, Copy, Debug, PartialEq, Eq, Structural)]
pub enum ReadTarget {
    /// Kickstart ROM at this offset.
    Rom(u32),
    /// Chip RAM at this offset.
    ChipRam(u32),
    /// Fast RAM at this offset.
    FastRam(u32),
    /// Slow RAM at this offset.
    SlowRam(u32),
    /// Nothing answers: the open bus reads `0xFF`.
    OpenBus,
    /// CIA-A register.
    CiaA(u8),
    /// CIA-B register.
    CiaB(u8),
    /// Gayle card status register.
    GayleStatus,
    /// Gayle interrupt request register.
    GayleIrq,
    /// Gayle interrupt enable register.
    GayleIntena,
    /// Gayle configuration register (low nibble).
    GayleConfig,
    /// Gayle IDE task file register.
    GayleIde(u32),
    /// Reserved Gayle space that reads `0x00`.
    Zero,
    /// Gayle serial ID register.
    GayleId,
    /// Custom chip register (word index); the high byte on even addresses.
    Custom { register: u32, high_byte: bool },
    /// Expansion boards decide first; if none claims the address it falls to
    /// the ROM at this offset, or to the open bus.
    Expansion { rom_offset: Option<u32> },
}

/// Base address of the ROM: 512KB images map at `0xF80000`, others at `0xFC0000`.
pub open spec fn spec_rom_base(config: MemoryConfig) -> u32 {
    if config.rom_size == 512 * 1024 { ROM_BASE_512K } else { ROM_BASE_256K }
}

/// Gayle IDE register an address selects: address lines A5 and A13 are
/// ignored, A12 selects the control block, and A2 upwards the register.
pub open spec fn spec_gayle_ide_register(addr: u32) -> u32 {
    let offset = addr % 0x1_0000;
    let a5 = (offset / 32) % 2;
    let a13 = (offset / 8192) % 2;
    ((offset - 32 * a5 - 8192 * a13) / 4) as u32
}

/// The memory map for reads, in priority order: the boot overlay of ROM at
/// address 0, chip RAM and its mirrors up to 2MB, fast RAM, the PCMCIA
/// windows, the CIAs (CIA-A on odd, CIA-B on even addresses, register from
/// A8–A11), slow RAM, Gayle low and high space, the custom chip registers,
/// the ROM mirror at `0xE00000`, and finally expansion boards and the ROM.
pub open spec fn spec_decode_read(config: MemoryConfig, overlay: bool, addr: u32) -> ReadTarget {
    if overlay && addr < config.rom_size {
        ReadTarget::Rom(addr)
    } else if addr < config.chip_ram_size {
        ReadTarget::ChipRam(addr)
    } else if addr < CHIP_REGION_END {
        ReadTarget::ChipRam(addr % config.chip_ram_size)
    } else if config.fast_ram_size > 0 && FAST_RAM_START <= addr < FAST_RAM_END && addr - FAST_RAM_START
        < config.fast_ram_size {
        ReadTarget::FastRam((addr - FAST_RAM_START) as u32)
    } else if PCMCIA_COMMON_START <= addr < PCMCIA_COMMON_END || PCMCIA_ATTR_START <= addr < PCMCIA_ATTR_END {
        ReadTarget::OpenBus
    } else if CIA_B_BASE <= addr < CIA_END {
        let reg = ((addr / 256) % 16) as u8;
        if addr % 2 == 1 && addr >= CIA_A_BASE {
            ReadTarget::CiaA(reg)
        } else if addr % 2 == 0 {
            ReadTarget::CiaB(reg)
        } else {
            ReadTarget::OpenBus
        }
    } else if config.slow_ram_size > 0 && SLOW_RAM_START <= addr < SLOW_RAM_END && addr - SLOW_RAM_START
        < config.slow_ram_size {
        ReadTarget::SlowRam((addr - SLOW_RAM_START) as u32)
    } else if GAYLE_LOW_START <= addr < GAYLE_LOW_END {
        if addr == GAYLE_CS_ADDR {
            ReadTarget::GayleStatus
        } else if addr == GAYLE_IRQ_ADDR {
            ReadTarget::GayleIrq
        } else if addr == GAYLE_INT_ADDR {
            ReadTarget::GayleIntena
        } else if addr == GAYLE_CFG_ADDR {
            ReadTarget::GayleConfig
        } else if GAYLE_IDE_START <= addr < GAYLE_IDE_END {
            ReadTarget::GayleIde(spec_gayle_ide_register(addr))
        } else {
            ReadTarget::Zero
        }
    } else if GAYLE_HIGH_START <= addr < GAYLE_HIGH_END {
        if addr % 0x1_0000 == GAYLE_ID_OFFSET {
            ReadTarget::GayleId
        } else {
            ReadTarget::Zero
        }
    } else if CUSTOM_BASE <= addr < CUSTOM_END {
        ReadTarget::Custom { register: ((addr - CUSTOM_BASE) % 0x200 / 2) as u32, high_byte: addr % 2 == 0 }
    } else if ROM_MIRROR_START <= addr < ROM_MIRROR_END {
        ReadTarget::Rom(((addr - ROM_MIRROR_START) % config.rom_size as int) as u32)
    } else {
        let base = spec_rom_base(config);
        ReadTarget::Expansion {
            rom_offset: if base <= addr < ROM_END && addr - base < config.rom_size {
                Some((addr - base) as u32)
            } else {
                None
            },
        }
    }
}

/// Gayle IDE register an address in the IDE window selects.
pub fn gayle_ide_register(addr: u32) -> (r: u32)
    ensures
        r == spec_gayle_ide_register(addr),
{
    let offset = addr % 0x1_0000;
    let a5 = (offset / 32) % 2;
    let a13 = (offset / 8192) % 2;
    (offset - 32 * a5 - 8192 * a13) / 4
}

/// Decode a CPU byte read of `addr`.
pub fn decode_read(config: &MemoryConfig, overlay: bool, addr: u32) -> (r: ReadTarget)
    requires
        config.chip_ram_size > 0,
        config.rom_size > 0,
    ensures
        r == spec_decode_read(*config, overlay, addr),
{
    if overlay && addr < config.rom_size {
        return ReadTarget::Rom(addr);
    }
    if addr < config.chip_ram_size {
        return ReadTarget::ChipRam(addr);
    }
    if addr < CHIP_REGION_END {
        return ReadTarget::ChipRam(addr % config.chip_ram_size);
    }
    if config.fast_ram_size > 0 && FAST_RAM_START <= addr && addr < FAST_RAM_END {
        let offset = addr - FAST_RAM_START;
        if offset < config.fast_ram_size {
            return ReadTarget::FastRam(offset);
        }
    }
    if (PCMCIA_COMMON_START <= addr && addr < PCMCIA_COMMON_END) || (PCMCIA_ATTR_START <= addr && addr
        < PCMCIA_ATTR_END) {
        return ReadTarget::OpenBus;
    }
    if CIA_B_BASE <= addr && addr < CIA_END {
        let reg = ((addr / 256) % 16) as u8;
        if addr % 2 == 1 && addr >= CIA_A_BASE {
            return ReadTarget::CiaA(reg);
        }
        if addr % 2 == 0 {
            return ReadTarget::CiaB(reg);
        }
        return ReadTarget::OpenBus;
    }
    if config.slow_ram_size > 0 && SLOW_RAM_START <= addr && addr < SLOW_RAM_END {
        let offset = addr - SLOW_RAM_START;
        if offset < config.slow_ram_size {
            return ReadTarget::SlowRam(offset);
        }
    }
    if GAYLE_LOW_START <= addr && addr < GAYLE_LOW_END {
        if addr == GAYLE_CS_ADDR {
            return ReadTarget::GayleStatus;
        } else if addr == GAYLE_IRQ_ADDR {
            return ReadTarget::GayleIrq;
        } else if addr == GAYLE_INT_ADDR {
            return ReadTarget::GayleIntena;
        } else if addr == GAYLE_CFG_ADDR {
            return ReadTarget::GayleConfig;
        } else if GAYLE_IDE_START <= addr && addr < GAYLE_IDE_END {
            return ReadTarget::GayleIde(gayle_ide_register(addr));
        }
        return ReadTarget::Zero;
    }
    if GAYLE_HIGH_START <= addr && addr < GAYLE_HIGH_END {
        if addr % 0x1_0000 == GAYLE_ID_OFFSET {
            return ReadTarget::GayleId;
        }
        return ReadTarget::Zero;
    }
    if CUSTOM_BASE <= addr && addr < CUSTOM_END {
        return ReadTarget::Custom { register: (addr - CUSTOM_BASE) % 0x200 / 2, high_byte: addr % 2 == 0 };
    }
    if ROM_MIRROR_START <= addr && addr < ROM_MIRROR_END {
        return ReadTarget::Rom((addr - ROM_MIRROR_START) % config.rom_size);
    }
    let base = if config.rom_size == 512 * 1024 { ROM_BASE_512K } else { ROM_BASE_256K };
    let rom_offset = if base <= addr && addr < ROM_END && addr - base < config.rom_size {
        Some(addr - base)
    } else {
        None
    };
    ReadTarget::Expansion { rom_offset }
}

/// Where a CPU byte write lands in the memory map.
#[derive(Clone, Copy, Debug, PartialEq, Eq, Structural)]
pub enum WriteTarget {
    /// Chip RAM at this offset.
    ChipRam(u32),
    /// Fast RAM at this offset.
    FastRam(u32),
    /// Slow RAM at this offset.
    SlowRam(u32),
    /// The write is dropped.
    Ignored,
    /// CIA register `register` of CIA-A, CIA-B, both or neither.
    Cia { register: u8, cia_a: bool, cia_b: bool },
    /// Gayle card status register.
    GayleStatus,
    /// Gayle interrupt request register (see [`gayle_irq_after_write`]).
    GayleIrq,
    /// Gayle interrupt enable register.
    GayleIntena,
    /// Gayle configuration register.
    GayleConfig,
    /// Gayle IDE task file register.
    GayleIde(u32),
    /// Any write to Gayle high space restarts the serial ID sequence.
    GayleIdReset,
    /// Byte of a custom chip register (word index); the high byte on even
    /// addresses. The write is then also offered to expansion boards.
    Custom { register: u32, high_byte: bool },
    /// Offered to expansion boards; ROM and unmapped space ignore it.
    Expansion,
}

/// Which CIAs a write to the CIA window selects. With Gayle/Fat Gary decoding
/// address lines A12–A13 pick one chip (1: CIA-B, 2: CIA-A); otherwise CIA-A
/// answers odd addresses from `CIA_A_BASE` on and CIA-B even addresses.
pub open spec fn spec_cia_write_select(config: MemoryConfig, addr: u32) -> (bool, bool) {
    if config.gayle_cia_decode {
        let cs = (addr / 4096) % 4;
        (cs == 2, cs == 1)
    } else {
        (addr % 2 == 1 && addr >= CIA_A_BASE, addr % 2 == 0)
    }
}

/// The memory map for writes, in priority order: chip RAM and its mirrors,
/// fast RAM, the PCMCIA windows, the CIAs, slow RAM, Gayle low and high space,
/// the custom chip registers, and finally expansion boards. The boot overlay
/// does not affect writes.
pub open spec fn spec_decode_write(config: MemoryConfig, addr: u32) -> WriteTarget {
    if addr < config.chip_ram_size {
        WriteTarget::ChipRam(addr)
    } else if addr < CHIP_REGION_END {
        WriteTarget::ChipRam(addr % config.chip_ram_size)
    } else if config.fast_ram_size > 0 && FAST_RAM_START <= addr < FAST_RAM_END && addr - FAST_RAM_START
        < config.fast_ram_size {
        WriteTarget::FastRam((addr - FAST_RAM_START) as u32)
    } else if PCMCIA_COMMON_START <= addr < PCMCIA_COMMON_END || PCMCIA_ATTR_START <= addr < PCMCIA_ATTR_END {
        WriteTarget::Ignored
    } else if CIA_B_BASE <= addr < CIA_END {
        let (a, b) = spec_cia_write_select(config, addr);
        WriteTarget::Cia { register: ((addr / 256) % 16) as u8, cia_a: a, cia_b: b }
    } else if config.slow_ram_size > 0 && SLOW_RAM_START <= addr < SLOW_RAM_END && addr - SLOW_RAM_START
        < config.slow_ram_size {
        WriteTarget::SlowRam((addr - SLOW_RAM_START) as u32)
    } else if GAYLE_LOW_START <= addr < GAYLE_LOW_END {
        if addr == GAYLE_CS_ADDR {
            WriteTarget::GayleStatus
        } else if addr == GAYLE_IRQ_ADDR {
            WriteTarget::GayleIrq
        } else if addr == GAYLE_INT_ADDR {
            WriteTarget::GayleIntena
        } else if addr == GAYLE_CFG_ADDR {
            WriteTarget::GayleConfig
        } else if GAYLE_IDE_START <= addr < GAYLE_IDE_END {
            WriteTarget::GayleIde(spec_gayle_ide_register(addr))
        } else {
            WriteTarget::Ignored
        }
    } else if GAYLE_HIGH_START <= addr < GAYLE_HIGH_END {
        WriteTarget::GayleIdReset
    } else if CUSTOM_BASE <= addr < CUSTOM_END {
        WriteTarget::Custom { register: ((addr - CUSTOM_BASE) % 0x200 / 2) as u32, high_byte: addr % 2 == 0 }
    } else {
        WriteTarget::Expansion
    }
}

/// Decode a CPU byte write to `addr`.
pub fn decode_write(config: &MemoryConfig, addr: u32) -> (r: WriteTarget)
    requires
        config.chip_ram_size > 0,
    ensures
        r == spec_decode_write(*config, addr),
{
    if addr < config.chip_ram_size {
        return WriteTarget::ChipRam(addr);
    }
    if addr < CHIP_REGION_END {
        return WriteTarget::ChipRam(addr % config.chip_ram_size);
    }
    if config.fast_ram_size > 0 && FAST_RAM_START <= addr && addr < FAST_RAM_END {
        let offset = addr - FAST_RAM_START;
        if offset < config.fast_ram_size {
            return WriteTarget::FastRam(offset);
        }
    }
    if (PCMCIA_COMMON_START <= addr && addr < PCMCIA_COMMON_END) || (PCMCIA_ATTR_START <= addr && addr
        < PCMCIA_ATTR_END) {
        return WriteTarget::Ignored;
    }
    if CIA_B_BASE <= addr && addr < CIA_END {
        let register = ((addr / 256) % 16) as u8;
        let (cia_a, cia_b) = cia_write_select(config, addr);
        return WriteTarget::Cia { register, cia_a, cia_b };
    }
    if config.slow_ram_size > 0 && SLOW_RAM_START <= addr && addr < SLOW_RAM_END {
        let offset = addr - SLOW_RAM_START;
        if offset < config.slow_ram_size {
            return WriteTarget::SlowRam(offset);
        }
    }
    if GAYLE_LOW_START <= addr && addr < GAYLE_LOW_END {
        if addr == GAYLE_CS_ADDR {
            return WriteTarget::GayleStatus;
        } else if addr == GAYLE_IRQ_ADDR {
            return WriteTarget::GayleIrq;
        } else if addr == GAYLE_INT_ADDR {
            return WriteTarget::GayleIntena;
        } else if addr == GAYLE_CFG_ADDR {
            return WriteTarget::GayleConfig;
        } else if GAYLE_IDE_START <= addr && addr < GAYLE_IDE_END {
            return WriteTarget::GayleIde(gayle_ide_register(addr));
        }
        return WriteTarget::Ignored;
    }
    if GAYLE_HIGH_START <= addr && addr < GAYLE_HIGH_END {
        return WriteTarget::GayleIdReset;
    }
    if CUSTOM_BASE <= addr && addr < CUSTOM_END {
        return WriteTarget::Custom { register: (addr - CUSTOM_BASE) % 0x200 / 2, high_byte: addr % 2 == 0 };
    }
    WriteTarget::Expansion
}

/// Gayle interrupt request register after a write of `value`: pending bits
/// are acknowledged by writing 0 to them, and the two low configuration bits
/// take the written value.
pub fn gayle_irq_after_write(irq: u8, value: u8) -> (r: u8)
    ensures
        r == (irq & value) | (value & 0x03),
{
    (irq & value) | (value & 0x03)
}

/// A custom register after a byte write of `value`: the high byte on even
/// addresses, the low byte on odd ones.
pub open spec fn spec_custom_word_after_byte_write(word: u16, value: u8, high_byte: bool) -> u16 {
    if high_byte {
        (value as int * 256 + word % 256) as u16
    } else {
        ((word / 256) * 256 + value as int) as u16
    }
}

/// A custom register after a byte write: the high byte on even addresses, the
/// low byte on odd ones. The word takes effect when its low byte is written.
pub fn custom_word_after_byte_write(word: u16, value: u8, high_byte: bool) -> (r: u16)
    ensures
        r == spec_custom_word_after_byte_write(word, value, high_byte),
{
    if high_byte {
        value as u16 * 256 + word % 256
    } else {
        (word / 256) * 256 + value as u16
    }
}

/// Gayle serial ID bit `count` of the sequence read from Gayle high space:
/// `0x80` on reads 0, 1, 3 and 7 after a reset, `0x00` otherwise.
pub fn gayle_id_bit(count: u8) -> (r: u8)
    ensures
        r == (if count == 0 || count == 1 || count == 3 || count == 7 { 0x80u8 } else { 0u8 }),
{
    if count == 0 || count == 1 || count == 3 || count == 7 {
        0x80
    } else {
        0x00
    }
}

/// Which CIAs a write to the CIA window reaches: `(cia_a, cia_b)`.
pub fn cia_write_select(config: &MemoryConfig, addr: u32) -> (r: (bool, bool))
    ensures
        r == spec_cia_write_select(*config, addr),
{
    if config.gayle_cia_decode {
        let cs = (addr / 4096) % 4;
        (cs == 2, cs == 1)
    } else {
        (addr % 2 == 1 && addr >= CIA_A_BASE, addr % 2 == 0)
    }
}

/// Which CIAs a word read of the CIA window reads.
#[derive(Clone, Copy, Debug, PartialEq, Eq, Structural)]
pub enum CiaWordRead {
    /// CIA-B in the high byte, CIA-A in the low byte.
    Both,
    /// CIA-B in the high byte; the low byte floats high.
    CiaB,
    /// CIA-A in the low byte; the high byte floats high.
    CiaA,
    /// Neither chip answers; the word floats high.
    Neither,
}

/// Which CIAs a word read of `addr` reaches: address lines A12–A13 select
/// CIA-B (1) or CIA-A (2); without Gayle decoding 0 selects both.
pub open spec fn spec_cia_word_read(config: MemoryConfig, addr: u32) -> CiaWordRead {
    let cs = (addr / 4096) % 4;
    if cs == 0 && !config.gayle_cia_decode {
        CiaWordRead::Both
    } else if cs == 1 {
        CiaWordRead::CiaB
    } else if cs == 2 {
        CiaWordRead::CiaA
    } else {
        CiaWordRead::Neither
    }
}

/// Which CIAs a word read of `addr` reaches.
pub fn cia_word_read(config: &MemoryConfig, addr: u32) -> (r: CiaWordRead)
    ensures
        r == spec_cia_word_read(*config, addr),
{
    let cs = (addr / 4096) % 4;
    if cs == 0 && !config.gayle_cia_decode {
        CiaWordRead::Both
    } else if cs == 1 {
        CiaWordRead::CiaB
    } else if cs == 2 {
        CiaWordRead::CiaA
    } else {
        CiaWordRead::Neither
    }
}

/// The word a CIA word access carries, from its high and low bytes: at an
/// odd address the bytes are swapped.
pub open spec fn spec_cia_word(high: u8, low: u8, odd: bool) -> u16 {
    if odd {
        (low as int * 256 + high as int) as u16
    } else {
        (high as int * 256 + low as int) as u16
    }
}

/// The word a CIA word access carries, from its high and low bytes: at an
/// odd address the bytes are swapped.
pub fn cia_word(high: u8, low: u8, odd: bool) -> (r: u16)
    ensures
        r == spec_cia_word(high, low, odd),
{
    if odd {
        low as u16 * 256 + high as u16
    } else {
        high as u16 * 256 + low as u16
    }
}

/// The CIA-B (high) and CIA-A (low) bytes of a CIA word write.
pub open spec fn spec_cia_word_bytes(value: u16, odd: bool) -> (u8, u8) {
    if odd {
        ((value % 256) as u8, (value / 256) as u8)
    } else {
        ((value / 256) as u8, (value % 256) as u8)
    }
}

/// The CIA-B (high) and CIA-A (low) bytes of a CIA word write: at an odd
/// address the bytes are swapped.
pub fn cia_word_bytes(value: u16, odd: bool) -> (r: (u8, u8))
    ensures
        r == spec_cia_word_bytes(value, odd),
{
    if odd {
        ((value % 256) as u8, (value / 256) as u8)
    } else {
        ((value / 256) as u8, (value % 256) as u8)
    }
}

/// CIA-A port A as the CPU reads it.
pub open spec fn spec_cia_a_port_a(pra_out: u8, ddra: u8, disk_status: u8, mouse_left: bool) -> u8 {
    (pra_out & ddra) | (((disk_status & 0x3C) | (if mouse_left { 0u8 } else { 0x40u8 }) | 0x80u8) & !ddra)
}

/// CIA-A port A as the CPU reads it: the output bits where the port drives
/// its pins, elsewhere the inputs: the disk status lines (bits 2–5), the left
/// mouse button on bit 6 (active low) and the joystick fire button on bit 7
/// (released, high).
pub fn cia_a_port_a(pra_out: u8, ddra: u8, disk_status: u8, mouse_left: bool) -> (r: u8)
    ensures
        r == spec_cia_a_port_a(pra_out, ddra, disk_status, mouse_left),
{
    let output_bits = pra_out & ddra;
    let input_bits = (disk_status & 0x3C) | (if mouse_left { 0u8 } else { 0x40u8 }) | 0x80u8;
    output_bits | (input_bits & !ddra)
}

/// Gayle card status as read.
pub open spec fn spec_gayle_status_value(status: u8, irq: u8, ide_pending: bool, ide_devcon: u8) -> u8 {
    status | (irq & 0x80) | (if ide_pending && ide_devcon & 2 == 0 { 0x80u8 } else { 0u8 })
}

/// Gayle card status as read: the status register, the IDE interrupt request
/// bit, and a pending drive interrupt unless the drive masks it (nIEN).
pub fn gayle_status_value(status: u8, irq: u8, ide_pending: bool, ide_devcon: u8) -> (r: u8)
    ensures
        r == spec_gayle_status_value(status, irq, ide_pending, ide_devcon),
{
    let pending: u8 = if ide_pending && ide_devcon & 2 == 0 { 0x80 } else { 0 };
    status | (irq & 0x80) | pending
}

/// What a Gayle IDE register number reaches.
#[derive(Clone, Copy, Debug, PartialEq, Eq, Structural)]
pub enum IdePort {
    /// Task file register 0–7 of the drive (0 is the data port).
    TaskFile(u32),
    /// Secondary task file, not fitted: reads `0xFF`.
    Secondary,
    /// Device control / alternate status.
    DeviceControl,
    /// Drive address register.
    DriveAddress,
    /// Nothing.
    Unused,
}

/// The port a Gayle IDE register number reaches: 0–7 the task file, `0x400`
/// to `0x405` the secondary block, `0x406` device control, `0x407` the drive
/// address.
pub fn gayle_ide_port(reg: u32) -> (r: IdePort)
    ensures
        reg <= 7 ==> r == IdePort::TaskFile(reg),
        0x400 <= reg <= 0x405 ==> r == IdePort::Secondary,
        reg == 0x406 ==> r == IdePort::DeviceControl,
        reg == 0x407 ==> r == IdePort::DriveAddress,
        !(reg <= 7 || 0x400 <= reg <= 0x407) ==> r == IdePort::Unused,
{
    if reg <= 7 {
        IdePort::TaskFile(reg)
    } else if 0x400 <= reg && reg <= 0x405 {
        IdePort::Secondary
    } else if reg == 0x406 {
        IdePort::DeviceControl
    } else if reg == 0x407 {
        IdePort::DriveAddress
    } else {
        IdePort::Unused
    }
}

/// Index of the read-back copy a word write to a set/clear custom register
/// updates: DMACON to DMACONR, INTENA to INTENAR, INTREQ to INTREQR, ADKCON
/// to ADKCONR.
pub fn readable_shadow_index(offset: u16) -> (r: Option<usize>)
    ensures
        offset == 0x096 ==> r == Some(1usize),
        offset == 0x09A ==> r == Some(14usize),
        offset == 0x09C ==> r == Some(15usize),
        offset == 0x09E ==> r == Some(8usize),
        !(offset == 0x096 || offset == 0x09A || offset == 0x09C || offset == 0x09E) ==> r is None,
{
    if offset == 0x096 {
        Some(1)
    } else if offset == 0x09A {
        Some(14)
    } else if offset == 0x09C {
        Some(15)
    } else if offset == 0x09E {
        Some(8)
    } else {
        None
    }
}

/// Whether a CPU access to `addr` can touch memory a running blit uses, so
/// that the blit must finish first: chip RAM and its mirrors, and the custom
/// registers.
pub fn needs_blitter_sync(config: &MemoryConfig, addr: u32) -> (r: bool)
    ensures
        r == (addr < config.chip_ram_size || addr < CHIP_REGION_END || (CUSTOM_BASE <= addr && addr < CUSTOM_END)),
{
    addr < config.chip_ram_size || addr < CHIP_REGION_END || (CUSTOM_BASE <= addr && addr < CUSTOM_END)
}

/// Outside the boot overlay, a read and a write of the same address reach
/// the same RAM byte: what the CPU writes to chip, fast or slow RAM it reads
/// back from there, and no write reaches the ROM.
pub proof fn law_ram_reads_see_writes(config: MemoryConfig, addr: u32)
    requires
        config.chip_ram_size > 0,
        config.rom_size > 0,
    ensures
        spec_decode_read(config, false, addr) is ChipRam <==> spec_decode_write(config, addr) is ChipRam,
        spec_decode_read(config, false, addr) is FastRam <==> spec_decode_write(config, addr) is FastRam,
        spec_decode_read(config, false, addr) is SlowRam <==> spec_decode_write(config, addr) is SlowRam,
        spec_decode_read(config, false, addr) is ChipRam ==> spec_decode_read(config, false, addr)->ChipRam_0
            == spec_decode_write(config, addr)->ChipRam_0,
        spec_decode_read(config, false, addr) is FastRam ==> spec_decode_read(config, false, addr)->FastRam_0
            == spec_decode_write(config, addr)->FastRam_0,
        spec_decode_read(config, false, addr) is SlowRam ==> spec_decode_read(config, false, addr)->SlowRam_0
            == spec_decode_write(config, addr)->SlowRam_0,
{
}

/// Which CIAs a word write to the CIA window selects: `(cia_a, cia_b)`. With
/// Gayle/Fat Gary decoding A12–A13 pick one chip (1: CIA-B, 2: CIA-A);
/// otherwise CIA-A answers when A12 is low and CIA-B when A13 is low.
pub open spec fn spec_cia_word_write_select(config: MemoryConfig, addr: u32) -> (bool, bool) {
    let cs = (addr / 4096) % 4;
    if config.gayle_cia_decode {
        (cs == 2, cs == 1)
    } else {
        (cs % 2 == 0, cs < 2)
    }
}

/// Number of custom chip registers shadowed by the memory subsystem.
pub const CUSTOM_REG_COUNT: usize = 256;

/// Word index of the disk byte register DSKBYTR among the custom registers.
pub const DSKBYTR_INDEX: u32 = 0x0D;

/// Word index of BEAMCON0 among the custom registers.
pub const BEAMCON0_INDEX: usize = 0xEE;

/// The Amiga memory subsystem: RAM, ROM, the chip register shadows and the
/// devices the CPU reaches through the memory map.
pub struct AmigaMemory {
    config: MemoryConfig,
    /// Amiga chip RAM buffer.
    pub chip_ram: Vec<u8>,
    /// Slow RAM (512KB at $C00000).
    pub slow_ram: Vec<u8>,
    fast_ram: Vec<u8>,
    rom: Vec<u8>,
    /// Legacy diagnostic for ROM mutation; loading a ROM leaves it intact.
    pub rom_drive_step_patch_applied: bool,
    /// When true, ROM is overlaid at address 0 (after reset, until CIA-A
    /// port A bit 0 is cleared).
    pub overlay: bool,
    /// Shadow copy of the custom chip registers (256 words at $000–$1FE).
    pub custom_regs: [u16; 256],
    reg_write_log: Vec<(u16, u16)>,
    /// CIA-A PRA shadow (bit 0 = OVL).
    pub cia_a_pra: u8,
    /// Set when CIA-B PRB is written (the disk controller must process it).
    pub cia_b_prb_dirty: bool,
    /// Disk status bits for CIA-A PRA (bits 2-5).
    pub disk_status: u8,
    /// Left mouse button state.
    pub mouse_left: bool,
    /// The CIA pair.
    pub cia: CiaPair,
    /// DSKBYTR shadow; reading it clears BYTERDY (bit 15).
    pub dskbytr: u16,
    /// Gayle INTREQ shadow register.
    pub gayle_irq: u8,
    /// Gayle INTENA shadow register.
    pub gayle_intena: u8,
    /// Gayle CONFIG shadow register.
    pub gayle_config: u8,
    /// Gayle status shadow register.
    pub gayle_status: u8,
    /// Position in the Gayle ID read sequence.
    pub gayle_id_cnt: u8,
    /// Gayle IDE controller.
    pub ide: AtaController,
    /// The A2065-compatible Zorro II Ethernet card (disabled unless enabled).
    pub a2065: A2065,
}

/// Abstract state of the memory subsystem.
pub struct MemoryView {
    pub config: MemoryConfig,
    pub chip_ram: Seq<u8>,
    pub slow_ram: Seq<u8>,
    pub fast_ram: Seq<u8>,
    pub rom: Seq<u8>,
    pub rom_drive_step_patch_applied: bool,
    pub overlay: bool,
    pub custom_regs: Seq<u16>,
    pub reg_write_log: Seq<(u16, u16)>,
    pub cia_a_pra: u8,
    pub cia_b_prb_dirty: bool,
    pub disk_status: u8,
    pub mouse_left: bool,
    pub cia: CiaPair,
    pub dskbytr: u16,
    pub gayle_irq: u8,
    pub gayle_intena: u8,
    pub gayle_config: u8,
    pub gayle_status: u8,
    pub gayle_id_cnt: u8,
    pub ide: AtaView,
    pub a2065: A2065View,
}

impl View for AmigaMemory {
    type V = MemoryView;

    closed spec fn view(&self) -> MemoryView {
        MemoryView {
            config: self.config,
            chip_ram: self.chip_ram@,
            slow_ram: self.slow_ram@,
            fast_ram: self.fast_ram@,
            rom: self.rom@,
            rom_drive_step_patch_applied: self.rom_drive_step_patch_applied,
            overlay: self.overlay,
            custom_regs: self.custom_regs@,
            reg_write_log: self.reg_write_log@,
            cia_a_pra: self.cia_a_pra,
            cia_b_prb_dirty: self.cia_b_prb_dirty,
            disk_status: self.disk_status,
            mouse_left: self.mouse_left,
            cia: self.cia,
            dskbytr: self.dskbytr,
            gayle_irq: self.gayle_irq,
            gayle_intena: self.gayle_intena,
            gayle_config: self.gayle_config,
            gayle_status: self.gayle_status,
            gayle_id_cnt: self.gayle_id_cnt,
            ide: self.ide@,
            a2065: self.a2065@,
        }
    }
}

/// The memory invariant: chip RAM and ROM present, every RAM and the ROM of
/// its configured size, and a well-formed network card.
pub open spec fn spec_memory_wf(v: MemoryView) -> bool {
    &&& v.config.chip_ram_size > 0
    &&& v.config.rom_size > 0
    &&& v.chip_ram.len() == v.config.chip_ram_size
    &&& v.slow_ram.len() == v.config.slow_ram_size
    &&& v.fast_ram.len() == v.config.fast_ram_size
    &&& v.rom.len() == v.config.rom_size
    &&& v.custom_regs.len() == CUSTOM_REG_COUNT
    &&& spec_card_wf(v.a2065)
}

/// A freshly created memory subsystem: zeroed RAM, a ROM of `0xFF` bytes
/// mapped over address 0, BEAMCON0 reporting PAL, reset CIAs and devices.
pub open spec fn spec_new_memory(config: MemoryConfig) -> MemoryView {
    MemoryView {
        config: config,
        chip_ram: Seq::new(config.chip_ram_size as nat, |i: int| 0u8),
        slow_ram: Seq::new(config.slow_ram_size as nat, |i: int| 0u8),
        fast_ram: Seq::new(config.fast_ram_size as nat, |i: int| 0u8),
        rom: Seq::new(config.rom_size as nat, |i: int| 0xFFu8),
        rom_drive_step_patch_applied: false,
        overlay: true,
        custom_regs: Seq::new(256, |i: int| if i == BEAMCON0_INDEX { BEAMCON0_PAL } else { 0u16 }),
        reg_write_log: Seq::empty(),
        cia_a_pra: 0,
        cia_b_prb_dirty: false,
        disk_status: 0x3C,
        mouse_left: false,
        cia: CiaPair { cia_a: CiaState::spec_reset(), cia_b: CiaState::spec_reset() },
        dskbytr: 0,
        gayle_irq: 0,
        gayle_intena: 0,
        gayle_config: 0,
        gayle_status: 0,
        gayle_id_cnt: 0,
        ide: spec_ata_new(),
        a2065: spec_new_disabled(seq![0x00u8, 0x80u8, 0x10u8, 0x4Du8, 0x49u8, 0x47u8]),
    }
}

/// A CIA-A register read: port A mixes the port's outputs with the disk,
/// mouse and joystick inputs; other registers come from the chip.
pub open spec fn spec_read_cia_a(v: MemoryView, reg: u8) -> (u8, MemoryView) {
    if reg == 0 {
        (spec_cia_a_port_a(v.cia_a_pra, v.cia.cia_a.ddra, v.disk_status, v.mouse_left), v)
    } else {
        let (r, c) = crate::cia::spec_read(v.cia.cia_a, reg);
        (r, MemoryView { cia: CiaPair { cia_a: c, ..v.cia }, ..v })
    }
}

/// A CIA-B register read.
pub open spec fn spec_read_cia_b(v: MemoryView, reg: u8) -> (u8, MemoryView) {
    let (r, c) = crate::cia::spec_read(v.cia.cia_b, reg);
    (r, MemoryView { cia: CiaPair { cia_b: c, ..v.cia }, ..v })
}

/// A CIA-A register write; port A also drives the boot overlay (bit 0).
pub open spec fn spec_write_cia_a(v: MemoryView, reg: u8, value: u8) -> MemoryView {
    let cia = CiaPair { cia_a: crate::cia::spec_write(v.cia.cia_a, reg, value), ..v.cia };
    if reg == 0 {
        MemoryView { cia, cia_a_pra: value, overlay: value & 1 != 0, ..v }
    } else {
        MemoryView { cia, ..v }
    }
}

/// A CIA-B register write; a port B write flags the disk controller and
/// enables the FLAG interrupt used for disk change detection.
pub open spec fn spec_write_cia_b(v: MemoryView, reg: u8, value: u8) -> MemoryView {
    let b = crate::cia::spec_write(v.cia.cia_b, reg, value);
    if reg == 1 {
        let b2 = if b.icr_mask & 0x10 == 0 { CiaState { icr_mask: b.icr_mask | 0x10, ..b } } else { b };
        MemoryView { cia: CiaPair { cia_b: b2, ..v.cia }, cia_b_prb_dirty: true, ..v }
    } else {
        MemoryView { cia: CiaPair { cia_b: b, ..v.cia }, ..v }
    }
}

/// The Gayle status register as read.
pub open spec fn spec_gayle_status(v: MemoryView) -> u8 {
    spec_gayle_status_value(v.gayle_status, v.gayle_irq, v.ide.pending_irq, v.ide.devcon)
}

/// A byte read of Gayle IDE register `reg`. Reading the status register
/// acknowledges the drive interrupt. A drive whose transfer bookkeeping is
/// inconsistent does not answer (`0xFF`).
pub open spec fn spec_read_gayle_ide(v: MemoryView, reg: u32) -> (u8, MemoryView) {
    if reg <= 7 {
        if spec_byte_port_ok(v.ide) {
            let (r, ide) = spec_read_register(v.ide, reg as usize, false);
            if reg == 7 {
                (r, MemoryView { ide: AtaView { pending_irq: false, ..ide }, gayle_irq: v.gayle_irq & 0x7F, ..v })
            } else {
                (r, MemoryView { ide, ..v })
            }
        } else {
            (0xFF, v)
        }
    } else if reg == 0x406 {
        if spec_byte_port_ok(v.ide) {
            let (r, ide) = spec_read_register(v.ide, 7, true);
            (r, MemoryView { ide, ..v })
        } else {
            (0xFF, v)
        }
    } else if reg == 0x407 {
        (((if (v.ide.select & 0x10) != 0 { 2u8 } else { 1u8 }) | ((v.ide.select & 0x0F) << 2u8)) ^ 0xFF, v)
    } else {
        (0xFF, v)
    }
}

/// Whether the drive can take a byte written to register `reg` (with the
/// control block when `is_control`).
pub open spec fn spec_ide_write_ok(ide: AtaView, reg: usize, is_control: bool, value: u8) -> bool {
    &&& spec_byte_port_ok(ide)
    &&& spec_commit_ok(ide)
    &&& (!is_control && reg == 7 ==> spec_command_ok(ide, value))
}

/// A byte write to Gayle IDE register `reg`: the task file and device
/// control reach the drive; a drive that cannot take the write ignores it.
pub open spec fn spec_write_gayle_ide(v: MemoryView, reg: u32, value: u8) -> MemoryView {
    if reg <= 7 {
        if spec_ide_write_ok(v.ide, reg as usize, false, value) {
            MemoryView { ide: spec_write_register(v.ide, reg as usize, false, value), ..v }
        } else {
            v
        }
    } else if reg == 0x406 {
        if spec_ide_write_ok(v.ide, 7, true, value) {
            MemoryView { ide: spec_write_register(v.ide, 7, true, value), ..v }
        } else {
            v
        }
    } else {
        v
    }
}

/// A byte read of custom register `register`: DSKBYTR clears BYTERDY when
/// read; the high byte on even addresses.
pub open spec fn spec_read_custom_byte(v: MemoryView, register: u32, high_byte: bool) -> (u8, MemoryView) {
    let word = if register == DSKBYTR_INDEX { v.dskbytr } else { v.custom_regs[register as int] };
    let v2 = if register == DSKBYTR_INDEX { MemoryView { dskbytr: v.dskbytr & 0x7FFF, ..v } } else { v };
    (if high_byte { (word / 256) as u8 } else { (word % 256) as u8 }, v2)
}

/// A byte write to custom register `register`; the low byte completes the
/// word, which is then logged.
pub open spec fn spec_write_custom_byte(v: MemoryView, register: u32, high_byte: bool, value: u8) -> MemoryView {
    let w = spec_custom_word_after_byte_write(v.custom_regs[register as int], value, high_byte);
    let v2 = MemoryView { custom_regs: v.custom_regs.update(register as int, w), ..v };
    if high_byte {
        v2
    } else {
        MemoryView { reg_write_log: v.reg_write_log.push(((register * 2) as u16, w)), ..v2 }
    }
}

/// A byte write offered to the network card.
pub open spec fn spec_offer_a2065(v: MemoryView, addr: u32, value: u8) -> MemoryView {
    MemoryView { a2065: crate::a2065::spec_write_byte(v.a2065, addr, value).0, ..v }
}

/// A CPU byte read of `addr` and the memory state after it, by the memory map.
#[verifier::opaque]
pub open spec fn spec_read_byte(v: MemoryView, addr: u32) -> (u8, MemoryView) {
    match spec_decode_read(v.config, v.overlay, addr) {
        ReadTarget::Rom(o) => (v.rom[o as int], v),
        ReadTarget::ChipRam(o) => (v.chip_ram[o as int], v),
        ReadTarget::FastRam(o) => (v.fast_ram[o as int], v),
        ReadTarget::SlowRam(o) => (v.slow_ram[o as int], v),
        ReadTarget::OpenBus => (0xFF, v),
        ReadTarget::CiaA(reg) => spec_read_cia_a(v, reg),
        ReadTarget::CiaB(reg) => spec_read_cia_b(v, reg),
        ReadTarget::GayleStatus => (spec_gayle_status(v), v),
        ReadTarget::GayleIrq => (v.gayle_irq, v),
        ReadTarget::GayleIntena => (v.gayle_intena, v),
        ReadTarget::GayleConfig => (v.gayle_config & 0x0F, v),
        ReadTarget::GayleIde(reg) => spec_read_gayle_ide(v, reg),
        ReadTarget::Zero => (0, v),
        ReadTarget::GayleId => (
            if v.gayle_id_cnt == 0 || v.gayle_id_cnt == 1 || v.gayle_id_cnt == 3 || v.gayle_id_cnt == 7 {
                0x80
            } else {
                0
            },
            MemoryView { gayle_id_cnt: (if v.gayle_id_cnt == 255 { 0 } else { v.gayle_id_cnt + 1 }) as u8, ..v },
        ),
        ReadTarget::Custom { register, high_byte } => spec_read_custom_byte(v, register, high_byte),
        ReadTarget::Expansion { rom_offset } => match crate::a2065::spec_read_byte(v.a2065, addr) {
            Some(b) => (b, v),
            None => match rom_offset {
                Some(o) => (v.rom[o as int], v),
                None => (0xFF, v),
            },
        },
    }
}

/// The memory state after a CPU byte write of `value` to `addr`, by the
/// memory map.
#[verifier::opaque]
pub open spec fn spec_write_byte(v: MemoryView, addr: u32, value: u8) -> MemoryView {
    match spec_decode_write(v.config, addr) {
        WriteTarget::ChipRam(o) => MemoryView { chip_ram: v.chip_ram.update(o as int, value), ..v },
        WriteTarget::FastRam(o) => MemoryView { fast_ram: v.fast_ram.update(o as int, value), ..v },
        WriteTarget::SlowRam(o) => MemoryView { slow_ram: v.slow_ram.update(o as int, value), ..v },
        WriteTarget::Ignored => v,
        WriteTarget::Cia { register, cia_a, cia_b } => {
            let v1 = if cia_b { spec_write_cia_b(v, register, value) } else { v };
            if cia_a { spec_write_cia_a(v1, register, value) } else { v1 }
        },
        WriteTarget::GayleStatus => MemoryView { gayle_status: value, ..v },
        WriteTarget::GayleIrq => MemoryView { gayle_irq: (v.gayle_irq & value) | (value & 0x03), ..v },
        WriteTarget::GayleIntena => MemoryView { gayle_intena: value, ..v },
        WriteTarget::GayleConfig => MemoryView { gayle_config: value, ..v },
        WriteTarget::GayleIde(reg) => spec_write_gayle_ide(v, reg, value),
        WriteTarget::GayleIdReset => MemoryView { gayle_id_cnt: 0, ..v },
        WriteTarget::Custom { register, high_byte } => spec_offer_a2065(
            spec_write_custom_byte(v, register, high_byte, value),
            addr,
            value,
        ),
        WriteTarget::Expansion => spec_offer_a2065(v, addr, value),
    }
}

/// `addr + n` on the 32-bit address bus.
pub open spec fn spec_next_addr(addr: u32, n: u32) -> u32 {
    ((addr as int + n as int) % 0x1_0000_0000) as u32
}

/// Whether `addr` selects the Gayle IDE data port.
pub open spec fn spec_is_ide_data(addr: u32) -> bool {
    GAYLE_IDE_START <= addr < GAYLE_IDE_END && spec_gayle_ide_register(addr) == 0
}

/// A CIA word read: CIA-B in the high byte, CIA-A in the low byte, the bytes
/// swapped at odd addresses; a chip that is not selected floats high.
pub open spec fn spec_read_cia_word(v: MemoryView, addr: u32) -> (u16, MemoryView) {
    let reg = ((addr / 256) % 16) as u8;
    let odd = addr % 2 == 1;
    match spec_cia_word_read(v.config, addr) {
        CiaWordRead::Both => {
            let (b, v1) = spec_read_cia_b(v, reg);
            let (a, v2) = spec_read_cia_a(v1, reg);
            (spec_cia_word(b, a, odd), v2)
        },
        CiaWordRead::CiaB => {
            let (b, v1) = spec_read_cia_b(v, reg);
            (spec_cia_word(b, 0xFF, odd), v1)
        },
        CiaWordRead::CiaA => {
            let (a, v1) = spec_read_cia_a(v, reg);
            (spec_cia_word(0xFF, a, odd), v1)
        },
        CiaWordRead::Neither => (0xFFFF, v),
    }
}

/// A CIA word write: CIA-B takes the high byte, CIA-A the low byte (swapped
/// at odd addresses), each if selected.
pub open spec fn spec_write_cia_word(v: MemoryView, addr: u32, value: u16) -> MemoryView {
    let reg = ((addr / 256) % 16) as u8;
    let (high, low) = spec_cia_word_bytes(value, addr % 2 == 1);
    let (sel_a, sel_b) = spec_cia_word_write_select(v.config, addr);
    let v1 = if sel_b { spec_write_cia_b(v, reg, high) } else { v };
    if sel_a { spec_write_cia_a(v1, reg, low) } else { v1 }
}

/// A CPU word read of `addr` and the state after it: the IDE data port reads
/// a whole word, the CIAs, the network card and the custom registers answer
/// word-wide; elsewhere two byte reads, high byte first.
#[verifier::opaque]
pub open spec fn spec_read_word(v: MemoryView, addr: u32) -> (u16, MemoryView) {
    if spec_is_ide_data(addr) {
        if v.ide.data_index + 2 <= usize::MAX {
            let (r, ide) = spec_read_data_word(v.ide);
            (r, MemoryView { ide, ..v })
        } else {
            (0xFFFF, v)
        }
    } else if CIA_B_BASE <= addr < CIA_END {
        spec_read_cia_word(v, addr)
    } else if crate::a2065::spec_read_word(v.a2065, addr) is Some {
        (crate::a2065::spec_read_word(v.a2065, addr)->0, v)
    } else if CUSTOM_BASE <= addr < CUSTOM_END {
        let register = ((addr - CUSTOM_BASE) % 0x200 / 2) as u32;
        if register == DSKBYTR_INDEX {
            (v.dskbytr, MemoryView { dskbytr: v.dskbytr & 0x7FFF, ..v })
        } else {
            (v.custom_regs[register as int], v)
        }
    } else {
        let (hi, v1) = spec_read_byte(v, addr);
        let (lo, v2) = spec_read_byte(v1, spec_next_addr(addr, 1));
        ((hi as int * 256 + lo as int) as u16, v2)
    }
}

/// A custom register after a word write: the word is stored and logged, and
/// a write to DMACON, INTENA, INTREQ or ADKCON sets or clears bits in its
/// read-back copy.
pub open spec fn spec_write_custom_word(v: MemoryView, register: u32, value: u16) -> MemoryView {
    let offset = (register * 2) as u16;
    let regs = v.custom_regs.update(register as int, value);
    let shadow: int = if offset == 0x096 {
        1
    } else if offset == 0x09A {
        14
    } else if offset == 0x09C {
        15
    } else if offset == 0x09E {
        8
    } else {
        -1
    };
    MemoryView {
        custom_regs: if shadow >= 0 { regs.update(shadow, spec_set_clear(regs[shadow], value)) } else { regs },
        reg_write_log: v.reg_write_log.push((offset, value)),
        ..v
    }
}

/// The state after a CPU word write of `value` to `addr`: the IDE data port
/// takes a whole word, the CIAs, the network card and the custom registers
/// word-wide; elsewhere two byte writes, high byte first.
#[verifier::opaque]
pub open spec fn spec_write_word(v: MemoryView, addr: u32, value: u16) -> MemoryView {
    if spec_is_ide_data(addr) {
        if v.ide.data_index + 2 <= usize::MAX && spec_commit_ok(v.ide) {
            MemoryView { ide: spec_write_data_word(v.ide, value), ..v }
        } else {
            v
        }
    } else if CIA_B_BASE <= addr < CIA_END {
        spec_write_cia_word(v, addr, value)
    } else {
        let (card, claimed) = crate::a2065::spec_write_word(v.a2065, addr, value);
        let v1 = MemoryView { a2065: card, ..v };
        if claimed {
            v1
        } else if CUSTOM_BASE <= addr < CUSTOM_END {
            spec_write_custom_word(v1, ((addr - CUSTOM_BASE) % 0x200 / 2) as u32, value)
        } else {
            let v2 = spec_write_byte(v1, addr, (value / 256) as u8);
            spec_write_byte(v2, spec_next_addr(addr, 1), (value % 256) as u8)
        }
    }
}

/// A CPU long read: two word reads, high word first.
pub open spec fn spec_read_long(v: MemoryView, addr: u32) -> (u32, MemoryView) {
    let (hi, v1) = spec_read_word(v, addr);
    let (lo, v2) = spec_read_word(v1, spec_next_addr(addr, 2));
    ((hi as int * 65536 + lo as int) as u32, v2)
}

/// A CPU long write: two word writes, high word first.
pub open spec fn spec_write_long(v: MemoryView, addr: u32, value: u32) -> MemoryView {
    let v1 = spec_write_word(v, addr, (value / 65536) as u16);
    spec_write_word(v1, spec_next_addr(addr, 2), (value % 65536) as u16)
}

/// Overwrite `dst` with the bytes of `src`, of the same length.
fn copy_into(dst: &mut Vec<u8>, src: &Vec<u8>)
    requires
        old(dst)@.len() == src@.len(),
    ensures
        final(dst)@ == src@,
{
    let n = src.len();
    let mut i: usize = 0;
    while i < n
        invariant
            n == src@.len(),
            dst@.len() == n,
            i <= n,
            forall|k: int| 0 <= k < i ==> dst@[k] == src@[k],
        decreases n - i,
    {
        dst.set(i, src[i]);
        i += 1;
    }
    assert(dst@ =~= src@);
}

impl AmigaMemory {
    /// Create a memory subsystem for `config`: zeroed RAM, a ROM of `0xFF`
    /// bytes overlaid at address 0 until loaded and unmapped, BEAMCON0
    /// reporting PAL timing, and reset CIAs, drive and network card.
    pub fn new(config: MemoryConfig) -> (r: Self)
        ensures
            r@ == spec_new_memory(config),
    {
        let chip_ram: Vec<u8> = vec![0u8; config.chip_ram_size as usize];
        let slow_ram: Vec<u8> = vec![0u8; config.slow_ram_size as usize];
        let fast_ram: Vec<u8> = vec![0u8; config.fast_ram_size as usize];
        let rom: Vec<u8> = vec![0xFFu8; config.rom_size as usize];
        let mut custom_regs = [0u16; 256];
        custom_regs[BEAMCON0_INDEX] = BEAMCON0_PAL;
        let r = Self {
            config,
            chip_ram,
            slow_ram,
            fast_ram,
            rom,
            rom_drive_step_patch_applied: false,
            overlay: true,
            custom_regs,
            reg_write_log: Vec::new(),
            cia_a_pra: 0,
            cia_b_prb_dirty: false,
            disk_status: 0x3C,
            mouse_left: false,
            cia: CiaPair::new(),
            dskbytr: 0,
            gayle_irq: 0,
            gayle_intena: 0,
            gayle_config: 0,
            gayle_status: 0,
            gayle_id_cnt: 0,
            ide: AtaController::new(),
            a2065: A2065::new_disabled(),
        };
        proof {
            let v = spec_new_memory(config);
            assert(r@.chip_ram =~= v.chip_ram);
            assert(r@.slow_ram =~= v.slow_ram);
            assert(r@.fast_ram =~= v.fast_ram);
            assert(r@.rom =~= v.rom);
            assert(r@.custom_regs =~= v.custom_regs);
            assert(r@.reg_write_log =~= v.reg_write_log);
        }
        r
    }

    /// The configuration the memory was created with.
    pub fn config(&self) -> (r: MemoryConfig)
        ensures
            r == self@.config,
    {
        self.config
    }

    /// Whether the memory satisfies its invariant (see [`spec_memory_wf`]).
    pub fn is_well_formed(&self) -> (r: bool)
        ensures
            r == spec_memory_wf(self@),
    {
        self.config.chip_ram_size > 0 && self.config.rom_size > 0 && self.chip_ram.len()
            == self.config.chip_ram_size as usize && self.slow_ram.len() == self.config.slow_ram_size as usize
            && self.fast_ram.len() == self.config.fast_ram_size as usize && self.rom.len()
            == self.config.rom_size as usize && self.a2065.is_well_formed()
    }

    /// Enable an A2065-compatible Ethernet card in the Zorro II autoconfig chain.
    pub fn enable_a2065(&mut self, mac_address: MacAddress)
        requires
            spec_card_wf(old(self)@.a2065),
        ensures
            final(self)@ == (MemoryView { a2065: spec_enable(old(self)@.a2065, mac_address@), ..old(self)@ }),
            spec_card_wf(final(self)@.a2065),
    {
        self.a2065.enable(mac_address);
    }

    /// Remove the emulated A2065-compatible Ethernet card from the memory map.
    pub fn disable_a2065(&mut self)
        requires
            spec_card_wf(old(self)@.a2065),
        ensures
            final(self)@ == (MemoryView { a2065: spec_disable(old(self)@.a2065), ..old(self)@ }),
            spec_card_wf(final(self)@.a2065),
    {
        self.a2065.disable();
    }

    /// Load ROM data of the configured ROM size.
    pub fn load_rom(&mut self, data: &[u8])
        requires
            data@.len() == old(self)@.config.rom_size,
            old(self)@.rom.len() == old(self)@.config.rom_size,
        ensures
            final(self)@ == (MemoryView { rom: data@, rom_drive_step_patch_applied: false, ..old(self)@ }),
    {
        let ghost pre = self@;
        let n = data.len();
        let mut i: usize = 0;
        while i < n
            invariant
                n == data@.len(),
                self.rom@.len() == n,
                i <= n,
                forall|k: int| 0 <= k < i ==> self.rom@[k] == data@[k],
                self@ == (MemoryView { rom: self@.rom, ..pre }),
            decreases n - i,
        {
            self.rom.set(i, data[i]);
            i += 1;
        }
        self.rom_drive_step_patch_applied = false;
        proof {
            assert(self@.rom =~= data@);
        }
    }

    /// Copy the state of another memory subsystem with RAM and ROM of the
    /// same sizes: everything but the configuration, the register write log
    /// and the mouse button.
    pub fn copy_from(&mut self, other: &Self)
        requires
            old(self)@.chip_ram.len() == other@.chip_ram.len(),
            old(self)@.slow_ram.len() == other@.slow_ram.len(),
            old(self)@.fast_ram.len() == other@.fast_ram.len(),
            old(self)@.rom.len() == other@.rom.len(),
        ensures
            final(self)@ == (MemoryView {
                config: old(self)@.config,
                reg_write_log: old(self)@.reg_write_log,
                mouse_left: old(self)@.mouse_left,
                ..other@
            }),
    {
        copy_into(&mut self.chip_ram, &other.chip_ram);
        copy_into(&mut self.slow_ram, &other.slow_ram);
        copy_into(&mut self.fast_ram, &other.fast_ram);
        copy_into(&mut self.rom, &other.rom);
        self.rom_drive_step_patch_applied = other.rom_drive_step_patch_applied;
        self.overlay = other.overlay;
        self.custom_regs = other.custom_regs;
        self.cia_a_pra = other.cia_a_pra;
        self.cia_b_prb_dirty = other.cia_b_prb_dirty;
        self.disk_status = other.disk_status;
        self.cia = other.cia;
        self.dskbytr = other.dskbytr;
        self.gayle_irq = other.gayle_irq;
        self.gayle_intena = other.gayle_intena;
        self.gayle_config = other.gayle_config;
        self.gayle_status = other.gayle_status;
        self.gayle_id_cnt = other.gayle_id_cnt;
        self.ide = other.ide.duplicate();
        self.a2065 = other.a2065.duplicate();
    }

    /// The chip RAM contents.
    pub fn chip_ram(&self) -> (r: &[u8])
        ensures
            r@ == self@.chip_ram,
    {
        self.chip_ram.as_slice()
    }

    /// Mutable access to the chip RAM contents.
    pub fn chip_ram_mut(&mut self) -> (r: &mut [u8])
        ensures
            r@ == old(self)@.chip_ram,
            final(self)@ == (MemoryView { chip_ram: final(r)@, ..old(self)@ }),
    {
        self.chip_ram.as_mut_slice()
    }

    /// The ROM contents.
    pub fn rom_data(&self) -> (r: &[u8])
        ensures
            r@ == self@.rom,
    {
        self.rom.as_slice()
    }

    /// Take the custom register writes logged since the last call, oldest
    /// first, leaving the log empty.
    pub fn drain_reg_writes(&mut self) -> (r: Vec<(u16, u16)>)
        ensures
            r@ == old(self)@.reg_write_log,
            final(self)@ == (MemoryView { reg_write_log: Seq::empty(), ..old(self)@ }),
    {
        let mut log: Vec<(u16, u16)> = Vec::new();
        std::mem::swap(&mut log, &mut self.reg_write_log);
        proof {
            assert(self@.reg_write_log =~= Seq::<(u16, u16)>::empty());
        }
        log
    }

    /// Read a custom chip register by byte offset (0x000–0x1FE); offsets
    /// beyond the register file read 0.
    pub fn read_custom_reg(&self, offset: u16) -> (r: u16)
        ensures
            r == (if offset / 2 < CUSTOM_REG_COUNT { self@.custom_regs[(offset / 2) as int] } else { 0 }),
    {
        let idx = (offset / 2) as usize;
        if idx < CUSTOM_REG_COUNT {
            self.custom_regs[idx]
        } else {
            0
        }
    }

    /// Write a custom chip register by byte offset (0x000–0x1FE) and log the
    /// write; offsets beyond the register file are ignored.
    pub fn write_custom_reg(&mut self, offset: u16, value: u16)
        ensures
            offset / 2 < CUSTOM_REG_COUNT ==> final(self)@ == (MemoryView {
                custom_regs: old(self)@.custom_regs.update((offset / 2) as int, value),
                reg_write_log: old(self)@.reg_write_log.push((offset, value)),
                ..old(self)@
            }),
            offset / 2 >= CUSTOM_REG_COUNT ==> final(self)@ == old(self)@,
    {
        let idx = (offset / 2) as usize;
        if idx < CUSTOM_REG_COUNT {
            self.custom_regs[idx] = value;
            self.reg_write_log.push((offset, value));
            proof {
                assert(self@.custom_regs =~= old(self)@.custom_regs.update((offset / 2) as int, value));
            }
        }
    }

    /// Raise the Gayle IDE interrupt request when the drive has one pending
    /// and does not mask it (nIEN); returns whether the enabled Gayle
    /// interrupt now asks for a PORTS interrupt.
    pub fn gayle_ide_interrupt(&mut self) -> (ports: bool)
        ensures
            final(self)@ == (MemoryView {
                gayle_irq: if old(self)@.ide.pending_irq && old(self)@.ide.devcon & 2 == 0 {
                    old(self)@.gayle_irq | GAYLE_IRQ_IDE
                } else {
                    old(self)@.gayle_irq
                },
                ..old(self)@
            }),
            ports == (final(self)@.gayle_irq & final(self)@.gayle_intena & GAYLE_IRQ_IDE != 0),
    {
        if self.ide.pending_irq && (self.ide.devcon & 0x02) == 0 {
            self.gayle_irq = self.gayle_irq | GAYLE_IRQ_IDE;
        }
        (self.gayle_irq & self.gayle_intena & GAYLE_IRQ_IDE) != 0
    }

    fn read_cia_a_register(&mut self, reg: u8) -> (r: u8)
        ensures
            (r, final(self)@) == spec_read_cia_a(old(self)@, reg),
    {
        if reg == 0 {
            cia_a_port_a(self.cia_a_pra, self.cia.cia_a.ddra, self.disk_status, self.mouse_left)
        } else {
            self.cia.cia_a.read(reg)
        }
    }

    fn read_cia_b_register(&mut self, reg: u8) -> (r: u8)
        ensures
            (r, final(self)@) == spec_read_cia_b(old(self)@, reg),
    {
        self.cia.cia_b.read(reg)
    }

    fn write_cia_a_register(&mut self, reg: u8, value: u8)
        ensures
            final(self)@ == spec_write_cia_a(old(self)@, reg, value),
    {
        self.cia.cia_a.write(reg, value);
        if reg == 0 {
            self.cia_a_pra = value;
            self.overlay = value & 1 != 0;
        }
    }

    fn write_cia_b_register(&mut self, reg: u8, value: u8)
        ensures
            final(self)@ == spec_write_cia_b(old(self)@, reg, value),
    {
        self.cia.cia_b.write(reg, value);
        if reg == 1 {
            self.cia_b_prb_dirty = true;
            if self.cia.cia_b.icr_mask & 0x10 == 0 {
                self.cia.cia_b.icr_mask = self.cia.cia_b.icr_mask | 0x10;
            }
        }
    }

    fn read_gayle_ide_register(&mut self, reg: u32) -> (r: u8)
        ensures
            (r, final(self)@) == spec_read_gayle_ide(old(self)@, reg),
    {
        match gayle_ide_port(reg) {
            IdePort::TaskFile(r) => {
                if !self.ide.byte_port_ready() {
                    return 0xFF;
                }
                let value = self.ide.read_register(r as usize, false);
                if r == 7 {
                    self.ide.pending_irq = false;
                    self.gayle_irq = self.gayle_irq & 0x7F;
                }
                value
            },
            IdePort::DeviceControl => {
                if !self.ide.byte_port_ready() {
                    return 0xFF;
                }
                self.ide.read_register(7, true)
            },
            IdePort::DriveAddress => self.ide.read_drive_address(),
            IdePort::Secondary => 0xFF,
            IdePort::Unused => 0xFF,
        }
    }

    fn write_gayle_ide_register(&mut self, reg: u32, value: u8)
        ensures
            final(self)@ == spec_write_gayle_ide(old(self)@, reg, value),
    {
        match gayle_ide_port(reg) {
            IdePort::TaskFile(r) => {
                if self.ide.byte_port_ready() && self.ide.commit_ready() && (r != 7
                    || self.ide.accepts_command(value)) {
                    self.ide.write_register(r as usize, false, value);
                }
            },
            IdePort::DeviceControl => {
                if self.ide.byte_port_ready() && self.ide.commit_ready() {
                    self.ide.write_register(7, true, value);
                }
            },
            _ => {},
        }
    }

    /// Read a byte from the memory map.
    fn read_byte_internal(&mut self, addr: u32) -> (r: u8)
        requires
            spec_memory_wf(old(self)@),
        ensures
            (r, final(self)@) == spec_read_byte(old(self)@, addr),
            spec_memory_wf(final(self)@),
    {
        proof {
            reveal(spec_read_byte);
        }
        match decode_read(&self.config, self.overlay, addr) {
            ReadTarget::Rom(o) => self.rom[o as usize],
            ReadTarget::ChipRam(o) => self.chip_ram[o as usize],
            ReadTarget::FastRam(o) => self.fast_ram[o as usize],
            ReadTarget::SlowRam(o) => self.slow_ram[o as usize],
            ReadTarget::OpenBus => 0xFF,
            ReadTarget::CiaA(reg) => self.read_cia_a_register(reg),
            ReadTarget::CiaB(reg) => self.read_cia_b_register(reg),
            ReadTarget::GayleStatus => gayle_status_value(
                self.gayle_status,
                self.gayle_irq,
                self.ide.pending_irq,
                self.ide.devcon,
            ),
            ReadTarget::GayleIrq => self.gayle_irq,
            ReadTarget::GayleIntena => self.gayle_intena,
            ReadTarget::GayleConfig => self.gayle_config & 0x0F,
            ReadTarget::GayleIde(reg) => self.read_gayle_ide_register(reg),
            ReadTarget::Zero => 0x00,
            ReadTarget::GayleId => {
                let cnt = self.gayle_id_cnt;
                self.gayle_id_cnt = cnt.wrapping_add(1);
                gayle_id_bit(cnt)
            },
            ReadTarget::Custom { register, high_byte } => {
                let word = if register == DSKBYTR_INDEX {
                    let w = self.dskbytr;
                    self.dskbytr = w & 0x7FFF;
                    w
                } else {
                    self.custom_regs[register as usize]
                };
                if high_byte {
                    (word / 256) as u8
                } else {
                    (word % 256) as u8
                }
            },
            ReadTarget::Expansion { rom_offset } => match self.a2065.read_byte(addr) {
                Some(b) => b,
                None => match rom_offset {
                    Some(o) => self.rom[o as usize],
                    None => 0xFF,
                },
            },
        }
    }

    /// Write a byte to the memory map.
    fn write_byte_internal(&mut self, addr: u32, value: u8)
        requires
            spec_memory_wf(old(self)@),
        ensures
            final(self)@ == spec_write_byte(old(self)@, addr, value),
            spec_memory_wf(final(self)@),
    {
        proof {
            reveal(spec_write_byte);
        }
        match decode_write(&self.config, addr) {
            WriteTarget::ChipRam(o) => {
                self.chip_ram.set(o as usize, value);
            },
            WriteTarget::FastRam(o) => {
                self.fast_ram.set(o as usize, value);
            },
            WriteTarget::SlowRam(o) => {
                self.slow_ram.set(o as usize, value);
            },
            WriteTarget::Ignored => {},
            WriteTarget::Cia { register, cia_a, cia_b } => {
                if cia_b {
                    self.write_cia_b_register(register, value);
                }
                if cia_a {
                    self.write_cia_a_register(register, value);
                }
            },
            WriteTarget::GayleStatus => {
                self.gayle_status = value;
            },
            WriteTarget::GayleIrq => {
                self.gayle_irq = gayle_irq_after_write(self.gayle_irq, value);
            },
            WriteTarget::GayleIntena => {
                self.gayle_intena = value;
            },
            WriteTarget::GayleConfig => {
                self.gayle_config = value;
            },
            WriteTarget::GayleIde(reg) => {
                self.write_gayle_ide_register(reg, value);
            },
            WriteTarget::GayleIdReset => {
                self.gayle_id_cnt = 0;
            },
            WriteTarget::Custom { register, high_byte } => {
                let idx = register as usize;
                let word = custom_word_after_byte_write(self.custom_regs[idx], value, high_byte);
                self.custom_regs[idx] = word;
                if !high_byte {
                    self.reg_write_log.push(((register * 2) as u16, word));
                }
                let _ = self.a2065.write_byte(addr, value);
            },
            WriteTarget::Expansion => {
                let _ = self.a2065.write_byte(addr, value);
            },
        }
    }
}

impl AmigaMemory {
    fn read_cia_word(&mut self, addr: u32) -> (r: u16)
        requires
            CIA_B_BASE <= addr < CIA_END,
        ensures
            (r, final(self)@) == spec_read_cia_word(old(self)@, addr),
    {
        let reg = ((addr / 256) % 16) as u8;
        let odd = addr % 2 == 1;
        match cia_word_read(&self.config, addr) {
            CiaWordRead::Both => {
                let b = self.read_cia_b_register(reg);
                let a = self.read_cia_a_register(reg);
                cia_word(b, a, odd)
            },
            CiaWordRead::CiaB => {
                let b = self.read_cia_b_register(reg);
                cia_word(b, 0xFF, odd)
            },
            CiaWordRead::CiaA => {
                let a = self.read_cia_a_register(reg);
                cia_word(0xFF, a, odd)
            },
            CiaWordRead::Neither => 0xFFFF,
        }
    }

    fn write_cia_word(&mut self, addr: u32, value: u16)
        requires
            CIA_B_BASE <= addr < CIA_END,
        ensures
            final(self)@ == spec_write_cia_word(old(self)@, addr, value),
    {
        let reg = ((addr / 256) % 16) as u8;
        let (high, low) = cia_word_bytes(value, addr % 2 == 1);
        let cs = (addr / 4096) % 4;
        let (sel_a, sel_b) = if self.config.gayle_cia_decode {
            (cs == 2, cs == 1)
        } else {
            (cs % 2 == 0, cs < 2)
        };
        if sel_b {
            self.write_cia_b_register(reg, high);
        }
        if sel_a {
            self.write_cia_a_register(reg, low);
        }
    }

    /// Read a word from the memory map.
    fn read_word_internal(&mut self, addr: u32) -> (r: u16)
        requires
            spec_memory_wf(old(self)@),
        ensures
            (r, final(self)@) == spec_read_word(old(self)@, addr),
            spec_memory_wf(final(self)@),
    {
        proof {
            reveal(spec_read_word);
        }
        if GAYLE_IDE_START <= addr && addr < GAYLE_IDE_END && gayle_ide_register(addr) == 0 {
            if self.ide.data_index < usize::MAX - 1 {
                return self.ide.read_data_word();
            }
            return 0xFFFF;
        }
        if CIA_B_BASE <= addr && addr < CIA_END {
            return self.read_cia_word(addr);
        }
        if let Some(value) = self.a2065.read_word(addr) {
            return value;
        }
        if CUSTOM_BASE <= addr && addr < CUSTOM_END {
            let register = (addr - CUSTOM_BASE) % 0x200 / 2;
            if register == DSKBYTR_INDEX {
                let word = self.dskbytr;
                self.dskbytr = word & 0x7FFF;
                return word;
            }
            return self.custom_regs[register as usize];
        }
        let hi = self.read_byte_internal(addr);
        let next = if addr == u32::MAX { 0 } else { addr + 1 };
        let lo = self.read_byte_internal(next);
        (hi as u16) * 256 + (lo as u16)
    }

    fn write_custom_word(&mut self, register: u32, value: u16)
        requires
            register < CUSTOM_REG_COUNT,
        ensures
            final(self)@ == spec_write_custom_word(old(self)@, register, value),
    {
        let offset = (register * 2) as u16;
        let ghost regs = old(self)@.custom_regs.update(register as int, value);
        self.custom_regs[register as usize] = value;
        self.reg_write_log.push((offset, value));
        match readable_shadow_index(offset) {
            Some(i) => {
                let w = apply_set_clear(self.custom_regs[i], value);
                self.custom_regs[i] = w;
                proof {
                    assert(self@.custom_regs =~= regs.update(i as int, spec_set_clear(regs[i as int], value)));
                }
            },
            None => {
                proof {
                    assert(self@.custom_regs =~= regs);
                }
            },
        }
    }

    /// Write a word to the memory map.
    #[verifier::rlimit(50)]
    #[verifier::spinoff_prover]
    fn write_word_internal(&mut self, addr: u32, value: u16)
        requires
            spec_memory_wf(old(self)@),
        ensures
            final(self)@ == spec_write_word(old(self)@, addr, value),
            spec_memory_wf(final(self)@),
    {
        proof {
            reveal(spec_write_word);
        }
        if GAYLE_IDE_START <= addr && addr < GAYLE_IDE_END && gayle_ide_register(addr) == 0 {
            if self.ide.data_index < usize::MAX - 1 && self.ide.commit_ready() {
                self.ide.write_data_word(value);
            }
            return;
        }
        if CIA_B_BASE <= addr && addr < CIA_END {
            self.write_cia_word(addr, value);
            return;
        }
        if self.a2065.write_word(addr, value) {
            return;
        }
        if CUSTOM_BASE <= addr && addr < CUSTOM_END {
            self.write_custom_word((addr - CUSTOM_BASE) % 0x200 / 2, value);
            return;
        }
        self.write_byte_internal(addr, (value / 256) as u8);
        let next = if addr == u32::MAX { 0 } else { addr + 1 };
        self.write_byte_internal(next, (value % 256) as u8);
    }
}

impl AddressBus for AmigaMemory {
    /// A well-formed memory reads as the memory map says; any other reads as
    /// the open bus and is left as it was.
    open spec fn byte_read(&self, address: u32, after: Self, value: u8) -> bool {
        if spec_memory_wf(self@) {
            (value, after@) == spec_read_byte(self@, address) && spec_memory_wf(after@)
        } else {
            value == 0xFF && after@ == self@
        }
    }

    /// A well-formed memory reads as the memory map says; any other reads as
    /// the open bus and is left as it was.
    open spec fn word_read(&self, address: u32, after: Self, value: u16) -> bool {
        if spec_memory_wf(self@) {
            (value, after@) == spec_read_word(self@, address) && spec_memory_wf(after@)
        } else {
            value == 0xFFFF && after@ == self@
        }
    }

    /// A well-formed memory reads as the memory map says; any other reads as
    /// the open bus and is left as it was.
    open spec fn long_read(&self, address: u32, after: Self, value: u32) -> bool {
        if spec_memory_wf(self@) {
            (value, after@) == spec_read_long(self@, address) && spec_memory_wf(after@)
        } else {
            value == 0xFFFF_FFFF && after@ == self@
        }
    }

    /// A well-formed memory takes the write as the memory map says; any
    /// other ignores it.
    open spec fn byte_written(&self, address: u32, value: u8, after: Self) -> bool {
        if spec_memory_wf(self@) {
            after@ == spec_write_byte(self@, address, value) && spec_memory_wf(after@)
        } else {
            after@ == self@
        }
    }

    /// A well-formed memory takes the write as the memory map says; any
    /// other ignores it.
    open spec fn word_written(&self, address: u32, value: u16, after: Self) -> bool {
        if spec_memory_wf(self@) {
            after@ == spec_write_word(self@, address, value) && spec_memory_wf(after@)
        } else {
            after@ == self@
        }
    }

    /// A well-formed memory takes the write as the memory map says; any
    /// other ignores it.
    open spec fn long_written(&self, address: u32, value: u32, after: Self) -> bool {
        if spec_memory_wf(self@) {
            after@ == spec_write_long(self@, address, value) && spec_memory_wf(after@)
        } else {
            after@ == self@
        }
    }

    /// A byte read through the memory map; a memory that does not satisfy
    /// its invariant reads as the open bus.
    fn read_byte(&mut self, addr: u32) -> (r: u8)
        ensures
            spec_memory_wf(old(self)@) ==> (r, final(self)@) == spec_read_byte(old(self)@, addr) && spec_memory_wf(
                final(self)@,
            ),
            !spec_memory_wf(old(self)@) ==> r == 0xFF && final(self)@ == old(self)@,
    {
        if self.is_well_formed() {
            self.read_byte_internal(addr)
        } else {
            0xFF
        }
    }

    /// A word read through the memory map.
    fn read_word(&mut self, addr: u32) -> (r: u16)
        ensures
            spec_memory_wf(old(self)@) ==> (r, final(self)@) == spec_read_word(old(self)@, addr) && spec_memory_wf(
                final(self)@,
            ),
            !spec_memory_wf(old(self)@) ==> r == 0xFFFF && final(self)@ == old(self)@,
    {
        if self.is_well_formed() {
            self.read_word_internal(addr)
        } else {
            0xFFFF
        }
    }

    /// A long read: two word reads, high word first.
    fn read_long(&mut self, addr: u32) -> (r: u32)
        ensures
            spec_memory_wf(old(self)@) ==> (r, final(self)@) == spec_read_long(old(self)@, addr) && spec_memory_wf(
                final(self)@,
            ),
            !spec_memory_wf(old(self)@) ==> r == 0xFFFF_FFFF && final(self)@ == old(self)@,
    {
        if self.is_well_formed() {
            let hi = self.read_word_internal(addr);
            let next = if addr >= u32::MAX - 1 { addr - (u32::MAX - 1) } else { addr + 2 };
            let lo = self.read_word_internal(next);
            (hi as u32) * 65536 + (lo as u32)
        } else {
            0xFFFF_FFFF
        }
    }

    /// A byte write through the memory map; a memory that does not satisfy
    /// its invariant ignores it.
    fn write_byte(&mut self, addr: u32, value: u8)
        ensures
            spec_memory_wf(old(self)@) ==> final(self)@ == spec_write_byte(old(self)@, addr, value) && spec_memory_wf(final(self)@),
            !spec_memory_wf(old(self)@) ==> final(self)@ == old(self)@,
    {
        if self.is_well_formed() {
            self.write_byte_internal(addr, value);
        }
    }

    /// A word write through the memory map.
    fn write_word(&mut self, addr: u32, value: u16)
        ensures
            spec_memory_wf(old(self)@) ==> final(self)@ == spec_write_word(old(self)@, addr, value) && spec_memory_wf(final(self)@),
            !spec_memory_wf(old(self)@) ==> final(self)@ == old(self)@,
    {
        if self.is_well_formed() {
            self.write_word_internal(addr, value);
        }
    }

    /// A long write: two word writes, high word first.
    fn write_long(&mut self, addr: u32, value: u32)
        ensures
            spec_memory_wf(old(self)@) ==> final(self)@ == spec_write_long(old(self)@, addr, value) && spec_memory_wf(final(self)@),
            !spec_memory_wf(old(self)@) ==> final(self)@ == old(self)@,
    {
        if self.is_well_formed() {
            self.write_word_internal(addr, (value / 65536) as u16);
            let next = if addr >= u32::MAX - 1 { addr - (u32::MAX - 1) } else { addr + 2 };
            self.write_word_internal(next, (value % 65536) as u16);
        }
    }
}

/// Whether a configuration fits the Amiga memory map: at most 2MB of chip
/// RAM, 8MB of fast RAM, 512KB of slow RAM and a 512KB ROM, as on every
/// machine model.
pub open spec fn spec_config_fits_map(config: MemoryConfig) -> bool {
    &&& config.chip_ram_size <= CHIP_REGION_END
    &&& config.fast_ram_size <= FAST_RAM_END - FAST_RAM_START
    &&& config.slow_ram_size <= SLOW_RAM_END - SLOW_RAM_START
    &&& config.rom_size <= ROM_END - ROM_BASE_512K
}

/// With the boot overlay off, a byte written to chip, fast or slow RAM (its
/// mirrors included) reads back unchanged from the same address.
#[verifier::rlimit(40)]
#[verifier::spinoff_prover]
pub proof fn law_memory_read_after_write(v: MemoryView, addr: u32, value: u8)
    requires
        spec_memory_wf(v),
        !v.overlay,
        spec_decode_write(v.config, addr) is ChipRam || spec_decode_write(v.config, addr) is FastRam
            || spec_decode_write(v.config, addr) is SlowRam,
    ensures
        spec_read_byte(spec_write_byte(v, addr, value), addr).0 == value,
{
    reveal(spec_read_byte);
    reveal(spec_write_byte);
    law_ram_reads_see_writes(v.config, addr);
}

/// No CPU write changes the ROM or the configuration.
pub proof fn law_rom_is_read_only(v: MemoryView, addr: u32, value: u8)
    requires
        spec_memory_wf(v),
    ensures
        spec_write_byte(v, addr, value).rom == v.rom,
        spec_write_byte(v, addr, value).config == v.config,
{
    reveal(spec_write_byte);
}

/// A write to CIA-A port A at `$BFE001` sets the boot overlay from bit 0 of
/// the written value, on every machine.
pub proof fn law_cia_a_port_a_controls_overlay(v: MemoryView, value: u8)
    requires
        spec_memory_wf(v),
        spec_config_fits_map(v.config),
    ensures
        spec_write_byte(v, 0x00BF_E001, value).overlay == (value & 1 != 0),
        spec_write_byte(v, 0x00BF_E001, value).cia_a_pra == value,
{
    reveal(spec_write_byte);
}

/// Any write to Gayle high space restarts the Gayle ID sequence, whose first
/// bit then reads `0x80`.
#[verifier::rlimit(40)]
#[verifier::spinoff_prover]
pub proof fn law_gayle_id_restarts(v: MemoryView, addr: u32, value: u8)
    requires
        spec_memory_wf(v),
        GAYLE_HIGH_START <= addr < GAYLE_HIGH_END,
        spec_config_fits_map(v.config),
    ensures
        spec_write_byte(v, addr, value).gayle_id_cnt == 0,
        spec_read_byte(spec_write_byte(v, addr, value), 0x00DD_1000).0 == 0x80,
{
    reveal(spec_read_byte);
    reveal(spec_write_byte);
}

/// A custom register written a byte at a time, high byte at the even address
/// first, holds the word once the low byte is written, and the completed word
/// is logged.
#[verifier::rlimit(40)]
#[verifier::spinoff_prover]
pub proof fn law_custom_byte_pair_completes_word(v: MemoryView, addr: u32, hi: u8, lo: u8)
    requires
        spec_memory_wf(v),
        spec_config_fits_map(v.config),
        CUSTOM_BASE <= addr < CUSTOM_END,
        addr % 2 == 0,
    ensures
        ({
            let register = ((addr - CUSTOM_BASE) % 0x200 / 2) as int;
            let w = spec_write_byte(spec_write_byte(v, addr, hi), (addr + 1) as u32, lo);
            &&& w.custom_regs[register] == hi as int * 256 + lo as int
            &&& w.reg_write_log == v.reg_write_log.push(((register * 2) as u16, (hi as int * 256 + lo as int) as u16))
        }),
{
    reveal(spec_write_byte);
    let register = ((addr - CUSTOM_BASE) % 0x200 / 2) as int;
    let next = (addr + 1) as u32;
    assert((next - CUSTOM_BASE) % 0x200 / 2 == register);
    let v1 = spec_write_byte(v, addr, hi);
    let old_word = v.custom_regs[register];
    let mid = spec_custom_word_after_byte_write(old_word, hi, true);
    assert(mid == hi as int * 256 + old_word % 256);
    assert(v1.custom_regs[register] == mid);
    assert(v1.reg_write_log == v.reg_write_log);
    let fin = spec_custom_word_after_byte_write(mid, lo, false);
    assert(mid / 256 == hi);
    assert(fin == hi as int * 256 + lo as int);
}

/// With the boot overlay off, a word written to chip RAM that no expansion
/// board claims is stored big-endian: its high byte at the address, its low
/// byte at the next, and a word read gives it back.
#[verifier::rlimit(40)]
#[verifier::spinoff_prover]
pub proof fn law_chip_word_write_is_big_endian(v: MemoryView, addr: u32, value: u16)
    requires
        spec_memory_wf(v),
        spec_config_fits_map(v.config),
        !v.overlay,
        addr + 1 < v.config.chip_ram_size,
        !crate::a2065::spec_write_word(v.a2065, addr, value).1,
        crate::a2065::spec_read_word(v.a2065, addr) is None,
    ensures
        spec_read_byte(spec_write_word(v, addr, value), addr).0 == value / 256,
        spec_read_byte(spec_write_word(v, addr, value), (addr + 1) as u32).0 == value % 256,
        spec_read_word(spec_write_word(v, addr, value), addr).0 == value,
{
    reveal(spec_read_byte);
    reveal(spec_write_byte);
    reveal(spec_read_word);
    reveal(spec_write_word);
    let w = spec_write_word(v, addr, value);
    assert(w.a2065 == v.a2065);
    assert(w.chip_ram[addr as int] == (value / 256) as u8);
    assert(w.chip_ram[addr + 1] == (value % 256) as u8);
}

} // verus!
