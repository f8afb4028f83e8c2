//! Effective address resolution for all 68000 addressing modes, and the
//! reads of instruction extension words.

use vstd::prelude::*;
use crate::m68k::cpu::{CpuCore, CpuException, RUN_MODE_BERR_AERR_RESET, spec_fault};
use crate::m68k::memory::AddressBus;
use crate::m68k::types::{CpuType, Size};

verus! {

/// Addressing mode encoding.
#[derive(Clone, Copy, Debug, PartialEq, Eq, Structural)]
pub enum AddressingMode {
    /// Data Register Direct: Dn
    DataDirect(u8),
    /// Address Register Direct: An
    AddressDirect(u8),
    /// Address Register Indirect: (An)
    AddressIndirect(u8),
    /// Address Register Indirect with Post-Increment: (An)+
    PostIncrement(u8),
    /// Address Register Indirect with Pre-Decrement: -(An)
    PreDecrement(u8),
    /// Address Register Indirect with Displacement: (d16,An)
    Displacement(u8),
    /// Address Register Indirect with Index: (d8,An,Xn)
    Index(u8),
    /// Absolute Short: (xxx).W
    AbsoluteShort,
    /// Absolute Long: (xxx).L
    AbsoluteLong,
    /// PC with Displacement: (d16,PC)
    PcDisplacement,
    /// PC with Index: (d8,PC,Xn)
    PcIndex,
    /// Immediate: #<data>
    Immediate,
}

/// Result of effective address calculation.
#[derive(Clone, Copy, Debug, PartialEq, Eq, Structural)]
pub enum EaResult {
    /// Value is in a data register.
    DataReg(u8),
    /// Value is in an address register.
    AddrReg(u8),
    /// Value is at a memory address.
    Memory(u32),
    /// Immediate value (with address of immediate data in instruction stream).
    Immediate(u32),
}

/// The mode a `(mode, reg)` field pair of an opcode encodes: modes 0 to 6 name
/// a register, mode 7 selects by `reg` among the absolute, PC-relative and
/// immediate modes.
pub open spec fn spec_decode(mode: u8, reg: u8) -> Option<AddressingMode> {
    if mode == 0 {
        Some(AddressingMode::DataDirect(reg))
    } else if mode == 1 {
        Some(AddressingMode::AddressDirect(reg))
    } else if mode == 2 {
        Some(AddressingMode::AddressIndirect(reg))
    } else if mode == 3 {
        Some(AddressingMode::PostIncrement(reg))
    } else if mode == 4 {
        Some(AddressingMode::PreDecrement(reg))
    } else if mode == 5 {
        Some(AddressingMode::Displacement(reg))
    } else if mode == 6 {
        Some(AddressingMode::Index(reg))
    } else if mode == 7 && reg == 0 {
        Some(AddressingMode::AbsoluteShort)
    } else if mode == 7 && reg == 1 {
        Some(AddressingMode::AbsoluteLong)
    } else if mode == 7 && reg == 2 {
        Some(AddressingMode::PcDisplacement)
    } else if mode == 7 && reg == 3 {
        Some(AddressingMode::PcIndex)
    } else if mode == 7 && reg == 4 {
        Some(AddressingMode::Immediate)
    } else {
        None
    }
}

/// The register a mode names is one of the eight of its kind.
pub open spec fn mode_register_ok(mode: AddressingMode) -> bool {
    match mode {
        AddressingMode::DataDirect(r) | AddressingMode::AddressDirect(r) | AddressingMode::AddressIndirect(r)
        | AddressingMode::PostIncrement(r) | AddressingMode::PreDecrement(r) | AddressingMode::Displacement(r)
        | AddressingMode::Index(r) => r < 8,
        _ => true,
    }
}

impl AddressingMode {
    /// Decode mode and register fields from opcode.
    pub fn decode(mode: u8, reg: u8) -> (r: Option<Self>)
        ensures
            r == spec_decode(mode, reg),
    {
        match mode {
            0 => Some(AddressingMode::DataDirect(reg)),
            1 => Some(AddressingMode::AddressDirect(reg)),
            2 => Some(AddressingMode::AddressIndirect(reg)),
            3 => Some(AddressingMode::PostIncrement(reg)),
            4 => Some(AddressingMode::PreDecrement(reg)),
            5 => Some(AddressingMode::Displacement(reg)),
            6 => Some(AddressingMode::Index(reg)),
            7 => match reg {
                0 => Some(AddressingMode::AbsoluteShort),
                1 => Some(AddressingMode::AbsoluteLong),
                2 => Some(AddressingMode::PcDisplacement),
                3 => Some(AddressingMode::PcIndex),
                4 => Some(AddressingMode::Immediate),
                _ => None,
            },
            _ => None,
        }
    }

    /// Check if this mode is a register direct mode.
    pub fn is_register_direct(&self) -> (r: bool)
        ensures
            r == (*self is DataDirect || *self is AddressDirect),
    {
        match self {
            AddressingMode::DataDirect(_) | AddressingMode::AddressDirect(_) => true,
            _ => false,
        }
    }
}

/// Two's complement sum of two 32-bit patterns.
pub open spec fn add32(a: int, b: int) -> u32 {
    ((a + b) % 0x1_0000_0000) as u32
}

/// 32-bit pattern of the sign extension of a word.
pub open spec fn sext16(w: int) -> int {
    if w >= 0x8000 { 0xFFFF_0000 + w } else { w }
}

/// 32-bit pattern of the sign extension of a byte.
pub open spec fn sext8(b: int) -> int {
    if b >= 0x80 { 0xFFFF_FF00 + b } else { b }
}

/// Step by which (An)+ and -(An) move An: the operand size, except that a
/// byte access through A7 keeps the stack word aligned.
pub open spec fn spec_addr_inc(reg: int, size: Size) -> u32 {
    if reg == 7 && size == Size::Byte {
        2
    } else {
        match size {
            Size::Byte => 1,
            Size::Word => 2,
            Size::Long => 4,
        }
    }
}

/// Whether the CPU is a 68020 or later.
pub open spec fn spec_is_020_plus(t: CpuType) -> bool {
    match t {
        CpuType::M68EC020 | CpuType::M68020 | CpuType::M68EC030 | CpuType::M68030 | CpuType::M68EC040
        | CpuType::M68LC040 | CpuType::M68040 => true,
        _ => false,
    }
}

/// The scaled index of an index extension word `ext`: bits 15..12 name the
/// index register (D0–D7, A0–A7), bit 11 selects a long index (otherwise its
/// low word, sign-extended), and on the 68020 and later bits 10..9 the scale
/// (1, 2, 4 or 8); the product is taken modulo 2^32.
pub open spec fn spec_scaled_index(dar: Seq<u32>, is_020: bool, ext: u16) -> u32 {
    let reg = (ext / 4096) as int;
    let raw = dar[reg] as int;
    let idx = if (ext / 2048) % 2 == 1 { raw } else { sext16(raw % 0x1_0000) };
    let scale: int = if is_020 {
        let s = (ext / 512) % 4;
        if s == 0 { 1 } else if s == 1 { 2 } else if s == 2 { 4 } else { 8 }
    } else {
        1
    };
    ((idx * scale) % 0x1_0000_0000) as u32
}

/// Address of a brief-format index extension word `ext` over `base`:
/// `base + d8 + Xn * scale`, with the signed displacement in bits 7..0.
pub open spec fn spec_brief_index(dar: Seq<u32>, is_020: bool, base: u32, ext: u16) -> u32 {
    add32(add32(base as int, sext8((ext % 256) as int)) as int, spec_scaled_index(dar, is_020, ext) as int)
}

/// A displacement of size field `size` read from the instruction stream by
/// core `c` (ending as `c2`, the bus going from `b` to `b2`): none, 0 and
/// nothing read, for sizes 0 and 1; a sign-extended word for 2; a long for 3.
pub open spec fn spec_disp_read<B: AddressBus>(c: CpuCore, b: B, size: int, c2: CpuCore, b2: B, d: u32) -> bool {
    if size == 2 {
        exists|w: u16| #[trigger] spec_ext_word(c, c2, b, b2, w) && d == sext16(w as int)
    } else if size == 3 {
        spec_ext_long(c, c2, b, b2, d)
    } else {
        c2 == c && b2 == b && d == 0
    }
}

/// The size field of the outer displacement of a full extension word: bits
/// 1..0 when memory indirection is used, else none.
pub open spec fn spec_outer_size(ext: u16) -> int {
    if ext % 8 != 0 {
        (ext % 4) as int
    } else {
        0
    }
}

/// What a 68020 full-format extension word `ext` over `base` with scaled
/// index `idx_val` gives as address `r`, read by core `c0` with the bus at
/// `b0`, the core ending as `c2` and the bus as `b2`: the base displacement
/// (size in bits 5..4) and then the outer displacement are read from the
/// instruction stream, and for memory indirection the long at
/// `spec_full_index_indirect` is read through the bus; the address is
/// `spec_full_index` of them.
pub open spec fn spec_full_index_result<B: AddressBus>(
    c0: CpuCore,
    b0: B,
    base: u32,
    ext: u16,
    idx_val: u32,
    r: u32,
    c2: CpuCore,
    b2: B,
) -> bool {
    exists|bd: u32, od: u32, ind: u32, c1: CpuCore, b1: B, c3: CpuCore, b3: B|
        #![trigger spec_disp_read(c0, b0, ((ext / 16) % 4) as int, c1, b1, bd), spec_disp_read(c1, b1, spec_outer_size(ext), c3, b3, od), spec_full_index(base, ext, idx_val, bd, od, ind)]
        spec_disp_read(c0, b0, ((ext / 16) % 4) as int, c1, b1, bd) && spec_disp_read(
            c1,
            b1,
            spec_outer_size(ext),
            c3,
            b3,
            od,
        ) && r == spec_full_index(base, ext, idx_val, bd, od, ind) && (ext % 8 != 0 ==> spec_data_long_read(
            c3,
            b3,
            spec_full_index_indirect(base, ext, idx_val, bd),
            c2,
            b2,
            ind,
        )) && (ext % 8 == 0 ==> c2 == c3 && b2 == b3)
}

/// The address an indexed mode over `base` gives on a 68020 or later for
/// extension word `ext`, the core and bus being `m` and `bm` after reading it
/// and ending as `c2` and `b2`: the brief format (bit 8 clear) with scaling,
/// reading nothing more; or the full format.
pub open spec fn spec_index_020<B: AddressBus>(
    dar: Seq<u32>,
    base: u32,
    ext: u16,
    addr: u32,
    m: CpuCore,
    bm: B,
    c2: CpuCore,
    b2: B,
) -> bool {
    if (ext / 256) % 2 == 0 {
        addr == spec_brief_index(dar, true, base, ext) && c2 == m && b2 == bm
    } else {
        spec_full_index_result(m, bm, base, ext, spec_scaled_index(dar, true, ext), addr, c2, b2)
    }
}

/// An extension word `v` read at PC by core `c`, leaving it as `c2`, with
/// the bus going from `b` to `b2`: as `spec_imm_read` says, and a read that
/// succeeded came from the bus at PC; an odd PC leaves the bus alone.
pub open spec fn spec_ext_word<B: AddressBus>(c: CpuCore, c2: CpuCore, b: B, b2: B, v: u16) -> bool {
    &&& spec_imm_read(c, c2, v as int, 2)
    &&& c.pc % 2 != 0 ==> b2 == b
    &&& c2.pc != c.pc ==> b.word_read(c.pc & c.address_mask, b2, v)
}

/// An extension long `v` read at PC, as [`spec_ext_word`] for a word.
pub open spec fn spec_ext_long<B: AddressBus>(c: CpuCore, c2: CpuCore, b: B, b2: B, v: u32) -> bool {
    &&& spec_imm_read(c, c2, v as int, 4)
    &&& c.pc % 2 != 0 ==> b2 == b
    &&& c2.pc != c.pc ==> b.long_read(c.pc & c.address_mask, b2, v)
}

/// The address an indexed mode over `base` gives for extension word `ext`
/// on core `old`, the core and bus being `m` and `bm` after reading it and
/// ending as `c2` and `b2`: before the 68020 the brief format without
/// scaling, reading nothing more; on the 68020 and later as
/// [`spec_index_020`] says.
pub open spec fn spec_index_addr<B: AddressBus>(
    old: CpuCore,
    base: u32,
    ext: u16,
    addr: u32,
    m: CpuCore,
    bm: B,
    c2: CpuCore,
    b2: B,
) -> bool {
    if spec_is_020_plus(old.cpu_type) {
        spec_index_020(old.dar@, base, ext, addr, m, bm, c2, b2)
    } else {
        addr == spec_brief_index(old.dar@, false, base, ext) && c2 == m && b2 == bm
    }
}

/// What resolving the effective address of `mode` for an operand of `size`
/// does, on a core `old` not already handling a bus or address error, with
/// the bus going from `ob` to `nb`: register, indirect, post-increment,
/// pre-decrement and immediate modes as [`spec_resolve_direct`] says, the
/// bus untouched; the other modes read their extension words from the
/// instruction stream through the bus and give the memory address they
/// designate.
pub open spec fn spec_resolve_ea<B: AddressBus>(
    old: CpuCore,
    ob: B,
    mode: AddressingMode,
    size: Size,
    new: CpuCore,
    nb: B,
    r: EaResult,
) -> bool {
    match spec_resolve_direct(old, mode, size) {
        Some(p) => r == p.0 && new == p.1 && nb == ob,
        None => match mode {
            AddressingMode::Displacement(reg) => exists|ext: u16|
                #[trigger] spec_ext_word(old, new, ob, nb, ext) && r == EaResult::Memory(
                    add32(old.dar@[8 + reg] as int, sext16(ext as int)),
                ),
            AddressingMode::AbsoluteShort => exists|ext: u16|
                #[trigger] spec_ext_word(old, new, ob, nb, ext) && r == EaResult::Memory(sext16(ext as int) as u32),
            AddressingMode::AbsoluteLong => exists|v: u32|
                #[trigger] spec_ext_long(old, new, ob, nb, v) && r == EaResult::Memory(v),
            AddressingMode::PcDisplacement => exists|ext: u16|
                #[trigger] spec_ext_word(old, new, ob, nb, ext) && r == EaResult::Memory(
                    add32(old.pc as int, sext16(ext as int)),
                ),
            AddressingMode::Index(reg) => exists|ext: u16, m: CpuCore, bm: B, addr: u32|
                #![trigger spec_ext_word(old, m, ob, bm, ext), spec_index_addr(old, old.dar@[8 + reg], ext, addr, m, bm, new, nb)]
                spec_ext_word(old, m, ob, bm, ext) && r == EaResult::Memory(addr) && spec_index_addr(
                    old,
                    old.dar@[8 + reg],
                    ext,
                    addr,
                    m,
                    bm,
                    new,
                    nb,
                ),
            AddressingMode::PcIndex => exists|ext: u16, m: CpuCore, bm: B, addr: u32|
                #![trigger spec_ext_word(old, m, ob, bm, ext), spec_index_addr(old, old.pc, ext, addr, m, bm, new, nb)]
                spec_ext_word(old, m, ob, bm, ext) && r == EaResult::Memory(addr) && spec_index_addr(
                    old,
                    old.pc,
                    ext,
                    addr,
                    m,
                    bm,
                    new,
                    nb,
                ),
            _ => false,
        },
    }
}

/// What reading an extension word or long of `width` bytes at PC does: an odd
/// PC raises an address error and reads 0; otherwise either PC advances past
/// it, or the bus faults, a bus error is raised and 0 is read.
pub open spec fn spec_imm_read(old: CpuCore, new: CpuCore, value: int, width: int) -> bool {
    if old.pc % 2 != 0 {
        value == 0 && new == spec_fault(
            old,
            CpuException::AddressError { address: old.pc, write: false, instruction: true },
        )
    } else {
        new == (CpuCore { pc: add32(old.pc as int, width), ..old }) || (value == 0 && new == spec_fault(
            old,
            CpuException::BusError { address: old.pc & old.address_mask, write: false, instruction: true },
        ))
    }
}

/// A long read for memory indirection at `addr`: the bus is read at the
/// masked address and either gives `r`, the core unchanged, or faults,
/// raising a bus error and reading 0 (nothing is then known of the bus).
pub open spec fn spec_data_long_read<B: AddressBus>(c: CpuCore, b: B, addr: u32, c2: CpuCore, b2: B, r: u32) -> bool {
    let a = addr & c.address_mask;
    (c2 == c && b.long_read(a, b2, r)) || (r == 0 && c2 == spec_fault(
        c,
        CpuException::BusError { address: a, write: false, instruction: false },
    ))
}

/// Address computed from a 68020 full extension word `ext` over `base` and
/// scaled index `idx_val`, given its base displacement `bd`, outer
/// displacement `od` and, for memory indirection, the long `ind` read
/// there: bit 7 suppresses the base and bit 6 the index; with no indirection
/// (bits 2..0 zero) it is `base + bd + index`; postindexed (bit 2 set) it is
/// `[base + bd] + index + od`; preindexed it is `[base + bd + index] + od`.
pub open spec fn spec_full_index(base: u32, ext: u16, idx_val: u32, bd: u32, od: u32, ind: u32) -> u32 {
    let b = if (ext / 128) % 2 == 1 { 0 } else { base };
    let idx = if (ext / 64) % 2 == 1 { 0 } else { idx_val };
    let i_is = ext % 8;
    if i_is != 0 {
        if i_is / 4 == 1 {
            add32(add32(ind as int, idx as int) as int, od as int)
        } else {
            add32(ind as int, od as int)
        }
    } else {
        add32(add32(b as int, bd as int) as int, idx as int)
    }
}

/// Where a 68020 full extension word reads its indirect long: `base + bd`
/// when postindexed, `base + bd + index` when preindexed.
pub open spec fn spec_full_index_indirect(base: u32, ext: u16, idx_val: u32, bd: u32) -> u32 {
    let b = if (ext / 128) % 2 == 1 { 0 } else { base };
    let idx = if (ext / 64) % 2 == 1 { 0 } else { idx_val };
    if (ext % 8) / 4 == 1 {
        add32(b as int, bd as int)
    } else {
        add32(add32(b as int, bd as int) as int, idx as int)
    }
}

/// An effective address calculation leaves the data registers, the
/// condition codes and the configuration as they were.
pub open spec fn data_and_flags_kept(old: CpuCore, new: CpuCore) -> bool {
    &&& forall|i: int| 0 <= i < 8 ==> #[trigger] new.dar@[i] == old.dar@[i]
    &&& new.x_flag == old.x_flag && new.n_flag == old.n_flag && new.not_z_flag == old.not_z_flag
    &&& new.v_flag == old.v_flag && new.c_flag == old.c_flag
    &&& new.cpu_type == old.cpu_type && new.sst_m68000_compat == old.sst_m68000_compat
    &&& new.address_mask == old.address_mask
}

/// Effective address and resulting state of the modes that read no extension
/// word, or `None` for the others.
pub open spec fn spec_resolve_direct(s: CpuCore, mode: AddressingMode, size: Size) -> Option<(EaResult, CpuCore)> {
    match mode {
        AddressingMode::DataDirect(r) => Some((EaResult::DataReg(r), s)),
        AddressingMode::AddressDirect(r) => Some((EaResult::AddrReg(r), s)),
        AddressingMode::AddressIndirect(r) => Some((EaResult::Memory(s.dar@[8 + r]), s)),
        AddressingMode::PostIncrement(r) => {
            let addr = s.dar@[8 + r];
            Some((
                EaResult::Memory(addr),
                CpuCore {
                    dar: vstd::array::spec_array_update(s.dar, 8 + r, add32(addr as int, spec_addr_inc(r as int, size) as int)),
                    ..s
                },
            ))
        },
        AddressingMode::PreDecrement(r) => {
            let addr = add32(s.dar@[8 + r] as int, 0x1_0000_0000 - spec_addr_inc(r as int, size));
            Some((EaResult::Memory(addr), CpuCore { dar: vstd::array::spec_array_update(s.dar, 8 + r, addr), ..s }))
        },
        AddressingMode::Immediate => {
            let width: int = match size {
                Size::Long => 4,
                _ => 2,
            };
            Some((EaResult::Immediate(s.pc), CpuCore { pc: add32(s.pc as int, width), ..s }))
        },
        _ => None,
    }
}

impl CpuCore {
    /// Step by which (An)+ and -(An) move An.
    fn addr_inc(&self, reg: u8, size: Size) -> (r: u32)
        ensures
            r == spec_addr_inc(reg as int, size),
    {
        if reg == 7 && size == Size::Byte {
            2
        } else {
            size.bytes()
        }
    }

    /// Resolve effective address.
    ///
    /// While a bus or address error is being processed no side effects are
    /// applied and `Memory(0)` is returned. Register, indirect, post-increment,
    /// pre-decrement and immediate modes are exact; displacement, absolute and
    /// indexed modes read their extension words from the instruction stream.
    #[verifier::rlimit(60)]
    #[verifier::spinoff_prover]
    pub fn resolve_ea<B: AddressBus>(&mut self, bus: &mut B, mode: AddressingMode, size: Size) -> (r: EaResult)
        requires
            mode_register_ok(mode),
        ensures
            data_and_flags_kept(*old(self), *final(self)),
            old(self).run_mode == RUN_MODE_BERR_AERR_RESET ==> r == EaResult::Memory(0) && *final(self) == *old(self)
                && *final(bus) == *old(bus),
            old(self).run_mode != RUN_MODE_BERR_AERR_RESET ==> spec_resolve_ea(
                *old(self),
                *old(bus),
                mode,
                size,
                *final(self),
                *final(bus),
                r,
            ),
    {
        if self.run_mode == RUN_MODE_BERR_AERR_RESET {
            return EaResult::Memory(0);
        }
        match mode {
            AddressingMode::DataDirect(reg) => EaResult::DataReg(reg),
            AddressingMode::AddressDirect(reg) => EaResult::AddrReg(reg),
            AddressingMode::AddressIndirect(reg) => EaResult::Memory(self.a(reg as usize)),
            AddressingMode::PostIncrement(reg) => {
                let addr = self.a(reg as usize);
                let inc = self.addr_inc(reg, size);
                self.set_a(reg as usize, addr.wrapping_add(inc));
                proof {
                    let u = vstd::array::spec_array_update(old(self).dar, 8 + reg, add32(addr as int, inc as int));
                    assert(self.dar@ =~= u@);
                    assert(self.dar =~= u);
                }
                EaResult::Memory(addr)
            },
            AddressingMode::PreDecrement(reg) => {
                let dec = self.addr_inc(reg, size);
                let addr = self.a(reg as usize).wrapping_sub(dec);
                self.set_a(reg as usize, addr);
                proof {
                    assert(addr == add32(old(self).dar@[8 + reg] as int, 0x1_0000_0000 - dec));
                    let u = vstd::array::spec_array_update(old(self).dar, 8 + reg, addr);
                    assert(self.dar@ =~= u@);
                    assert(self.dar =~= u);
                }
                EaResult::Memory(addr)
            },
            AddressingMode::Displacement(reg) => {
                let ext = self.read_imm_16(bus);
                let addr = old_a_plus_disp(self.a(reg as usize), ext);
                assert(spec_ext_word(*old(self), *self, *old(bus), *bus, ext));
                EaResult::Memory(addr)
            },
            AddressingMode::Index(reg) => {
                let base = self.a(reg as usize);
                let ext = self.read_imm_16(bus);
                let ghost m = *self;
                let ghost bm = *bus;
                let addr = self.compute_index(base, ext, bus);
                proof {
                    assert(m.dar == old(self).dar);
                    assert(spec_ext_word(*old(self), m, *old(bus), bm, ext));
                    assert(spec_index_addr(*old(self), base, ext, addr, m, bm, *self, *bus));
                }
                EaResult::Memory(addr)
            },
            AddressingMode::AbsoluteShort => {
                let ext = self.read_imm_16(bus);
                assert(spec_ext_word(*old(self), *self, *old(bus), *bus, ext));
                EaResult::Memory(sign_extend_word(ext))
            },
            AddressingMode::AbsoluteLong => {
                let addr = self.read_imm_32(bus);
                assert(spec_ext_long(*old(self), *self, *old(bus), *bus, addr));
                EaResult::Memory(addr)
            },
            AddressingMode::PcDisplacement => {
                let pc = self.pc;
                let ext = self.read_imm_16(bus);
                assert(spec_ext_word(*old(self), *self, *old(bus), *bus, ext));
                EaResult::Memory(old_a_plus_disp(pc, ext))
            },
            AddressingMode::PcIndex => {
                let pc = self.pc;
                let ext = self.read_imm_16(bus);
                let ghost m = *self;
                let ghost bm = *bus;
                let addr = self.compute_index(pc, ext, bus);
                proof {
                    assert(m.dar == old(self).dar);
                    assert(spec_ext_word(*old(self), m, *old(bus), bm, ext));
                    assert(spec_index_addr(*old(self), pc, ext, addr, m, bm, *self, *bus));
                }
                EaResult::Memory(addr)
            },
            AddressingMode::Immediate => {
                let addr = self.pc;
                match size {
                    Size::Byte => {
                        self.pc = self.pc.wrapping_add(2);
                    },
                    Size::Word => {
                        self.pc = self.pc.wrapping_add(2);
                    },
                    Size::Long => {
                        self.pc = self.pc.wrapping_add(4);
                    },
                }
                EaResult::Immediate(addr)
            },
        }
    }

    /// Compute an indexed address from its extension word: the brief format,
    /// or on 68020 and later the full format when bit 8 is set.
    #[verifier::rlimit(80)]
    #[verifier::spinoff_prover]
    fn compute_index<B: AddressBus>(&mut self, base: u32, ext: u16, bus: &mut B) -> (r: u32)
        ensures
            !spec_is_020_plus(old(self).cpu_type) ==> r == spec_brief_index(old(self).dar@, false, base, ext)
                && *final(self) == *old(self),
            !spec_is_020_plus(old(self).cpu_type) ==> *final(bus) == *old(bus),
            spec_is_020_plus(old(self).cpu_type) ==> spec_index_020(
                old(self).dar@,
                base,
                ext,
                r,
                *old(self),
                *old(bus),
                *final(self),
                *final(bus),
            ),
            final(self).dar == old(self).dar,
            data_and_flags_kept(*old(self), *final(self)),
    {
        let is_020 = self.is_020_plus();
        let reg = (ext / 4096) as usize;
        let raw = self.dar[reg];
        let idx = if (ext / 2048) % 2 == 1 {
            raw
        } else {
            sign_extend_word((raw % 0x1_0000) as u16)
        };
        let scale: u64 = if is_020 {
            let s = (ext / 512) % 4;
            if s == 0 { 1 } else if s == 1 { 2 } else if s == 2 { 4 } else { 8 }
        } else {
            1
        };
        let scaled = ((idx as u64 * scale) % 0x1_0000_0000) as u32;
        proof {
            let spec_idx: int = if (ext / 2048) % 2 == 1 { raw as int } else { sext16(raw as int % 0x1_0000) };
            assert(idx as int == spec_idx);
            let sc: int = if is_020 {
                let sv = (ext / 512) % 4;
                if sv == 0 { 1 } else if sv == 1 { 2 } else if sv == 2 { 4 } else { 8 }
            } else {
                1
            };
            assert(scale as int == sc);
            assert(idx as u64 * scale == spec_idx * sc) by (nonlinear_arith)
                requires
                    idx as int == spec_idx,
                    scale as int == sc,
            ;
            assert(scaled == spec_scaled_index(self.dar@, is_020, ext));
        }
        if (ext / 256) % 2 == 1 && is_020 {
            self.compute_full_index(base, ext, scaled, bus)
        } else {
            let d8 = sign_extend_byte((ext % 256) as u8);
            base.wrapping_add(d8).wrapping_add(scaled)
        }
    }

    /// 68020 full extension word format: base and index suppression, base
    /// displacement, and memory indirection before or after indexing.
    #[verifier::rlimit(60)]
    #[verifier::spinoff_prover]
    fn compute_full_index<B: AddressBus>(&mut self, base: u32, ext: u16, idx_val: u32, bus: &mut B) -> (r: u32)
        ensures
            final(self).dar == old(self).dar,
            data_and_flags_kept(*old(self), *final(self)),
            spec_full_index_result(*old(self), *old(bus), base, ext, idx_val, r, *final(self), *final(bus)),
    {
        let bs = (ext / 128) % 2 == 1;
        let is = (ext / 64) % 2 == 1;
        let bd_size = (ext / 16) % 4;
        let i_is = ext % 8;
        let ghost old_base = base;
        let ghost c0 = *self;
        let ghost b0 = *bus;
        proof {
            assert((ext % 8) % 4 == ext % 4) by (bit_vector);
        }
        let base = if bs { 0 } else { base };
        let idx = if is { 0 } else { idx_val };
        let bd: u32 = if bd_size == 2 {
            let w = self.read_imm_16(bus);
            assert(spec_ext_word(c0, *self, b0, *bus, w));
            sign_extend_word(w)
        } else if bd_size == 3 {
            self.read_imm_32(bus)
        } else {
            0
        };
        let ghost c1 = *self;
        let ghost b1 = *bus;
        assert(spec_disp_read(c0, b0, bd_size as int, c1, b1, bd));
        if i_is != 0 {
            let od_size = i_is % 4;
            let outer_disp: u32 = if od_size == 2 {
                let w = self.read_imm_16(bus);
                assert(spec_ext_word(c1, *self, b1, *bus, w));
                sign_extend_word(w)
            } else if od_size == 3 {
                self.read_imm_32(bus)
            } else {
                0
            };
            let ghost cm = *self;
            let ghost bm = *bus;
            assert(spec_disp_read(c1, b1, spec_outer_size(ext), cm, bm, outer_disp));
            if i_is / 4 == 1 {
                let intermediate = base.wrapping_add(bd);
                proof {
                    lemma_wrapping_add32(base, bd);
                }
                let indirect = self.read_data_long(bus, intermediate);
                let r = indirect.wrapping_add(idx).wrapping_add(outer_disp);
                proof {
                    lemma_wrapping_add32(indirect, idx);
                    lemma_wrapping_add32(indirect.wrapping_add(idx), outer_disp);
                    assert(intermediate == spec_full_index_indirect(old_base, ext, idx_val, bd));
                    assert(spec_data_long_read(cm, bm, spec_full_index_indirect(old_base, ext, idx_val, bd), *self, *bus, indirect));
                    assert(r == spec_full_index(old_base, ext, idx_val, bd, outer_disp, indirect));
                }
                r
            } else {
                let intermediate = base.wrapping_add(bd).wrapping_add(idx);
                proof {
                    lemma_wrapping_add32(base, bd);
                    lemma_wrapping_add32(base.wrapping_add(bd), idx);
                }
                let indirect = self.read_data_long(bus, intermediate);
                let r = indirect.wrapping_add(outer_disp);
                proof {
                    lemma_wrapping_add32(indirect, outer_disp);
                    assert(intermediate == spec_full_index_indirect(old_base, ext, idx_val, bd));
                    assert(spec_data_long_read(cm, bm, spec_full_index_indirect(old_base, ext, idx_val, bd), *self, *bus, indirect));
                    assert(r == spec_full_index(old_base, ext, idx_val, bd, outer_disp, indirect));
                }
                r
            }
        } else {
            let r = base.wrapping_add(bd).wrapping_add(idx);
            proof {
                lemma_wrapping_add32(base, bd);
                lemma_wrapping_add32(base.wrapping_add(bd), idx);
                assert(r == spec_full_index(old_base, ext, idx_val, bd, 0, 0));
                assert(spec_disp_read(c1, b1, spec_outer_size(ext), c1, b1, 0));
            }
            r
        }
    }

    /// Read a data long for memory indirection; a bus fault raises a bus error
    /// and reads 0.
    fn read_data_long<B: AddressBus>(&mut self, bus: &mut B, addr: u32) -> (r: u32)
        ensures
            final(self).dar == old(self).dar,
            data_and_flags_kept(*old(self), *final(self)),
            spec_data_long_read(*old(self), *old(bus), addr, *final(self), *final(bus), r),
    {
        let addr = self.address(addr);
        match bus.try_read_long(addr) {
            Ok(v) => v,
            Err(_) => {
                self.trigger_bus_error(addr, false, false);
                0
            },
        }
    }

    /// Check if CPU is 68020 or later.
    pub(crate) fn is_020_plus(&self) -> (r: bool)
        ensures
            r == spec_is_020_plus(self.cpu_type),
    {
        match self.cpu_type {
            CpuType::M68EC020 | CpuType::M68020 | CpuType::M68EC030 | CpuType::M68030 | CpuType::M68EC040
            | CpuType::M68LC040 | CpuType::M68040 => true,
            _ => false,
        }
    }

    /// Read immediate 16-bit value and advance PC.
    pub fn read_imm_16<B: AddressBus>(&mut self, bus: &mut B) -> (r: u16)
        ensures
            spec_imm_read(*old(self), *final(self), r as int, 2),
            old(self).pc % 2 != 0 ==> *final(bus) == *old(bus),
            final(self).pc != old(self).pc ==> old(bus).word_read(
                old(self).pc & old(self).address_mask,
                *final(bus),
                r,
            ),
    {
        let addr = self.pc;
        if addr % 2 != 0 {
            self.trigger_address_error(addr, false, true);
            return 0;
        }
        let addr = self.address(addr);
        match bus.try_read_word(addr) {
            Ok(v) => {
                self.pc = self.pc.wrapping_add(2);
                v
            },
            Err(_) => {
                self.trigger_bus_error(addr, false, true);
                0
            },
        }
    }

    /// Read immediate 32-bit value and advance PC.
    pub fn read_imm_32<B: AddressBus>(&mut self, bus: &mut B) -> (r: u32)
        ensures
            spec_imm_read(*old(self), *final(self), r as int, 4),
            old(self).pc % 2 != 0 ==> *final(bus) == *old(bus),
            final(self).pc != old(self).pc ==> old(bus).long_read(
                old(self).pc & old(self).address_mask,
                *final(bus),
                r,
            ),
    {
        let addr = self.pc;
        if addr % 2 != 0 {
            self.trigger_address_error(addr, false, true);
            return 0;
        }
        let addr = self.address(addr);
        match bus.try_read_long(addr) {
            Ok(v) => {
                self.pc = self.pc.wrapping_add(4);
                v
            },
            Err(_) => {
                self.trigger_bus_error(addr, false, true);
                0
            },
        }
    }

    /// Read immediate 8-bit value and advance PC (reads word, returns low byte).
    pub fn read_imm_8<B: AddressBus>(&mut self, bus: &mut B) -> (r: u8)
        ensures
            exists|w: u16| #![auto] spec_imm_read(*old(self), *final(self), w as int, 2) && r == w % 256,
    {
        let w = self.read_imm_16(bus);
        (w % 256) as u8
    }
}

/// Wrapping addition of two 32-bit patterns is their sum modulo 2^32.
pub(crate) proof fn lemma_wrapping_add32(a: u32, b: u32)
    ensures
        a.wrapping_add(b) == add32(a as int, b as int),
{
}

/// 32-bit pattern of the sign extension of a word.
pub fn sign_extend_word(w: u16) -> (r: u32)
    ensures
        r == sext16(w as int),
{
    if w >= 0x8000 {
        0xFFFF_0000 + w as u32
    } else {
        w as u32
    }
}

/// 32-bit pattern of the sign extension of a byte.
pub fn sign_extend_byte(b: u8) -> (r: u32)
    ensures
        r == sext8(b as int),
{
    if b >= 0x80 {
        0xFFFF_FF00 + b as u32
    } else {
        b as u32
    }
}

/// `base` plus a sign-extended 16-bit displacement, wrapping.
fn old_a_plus_disp(base: u32, disp: u16) -> (r: u32)
    ensures
        r == add32(base as int, sext16(disp as int)),
{
    base.wrapping_add(sign_extend_word(disp))
}

} // verus!
