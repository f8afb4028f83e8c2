//! Multiply and divide instructions: MULU, MULS, DIVU, DIVS.
//!
//! Each reads its word source operand through the effective address, then
//! applies the arithmetic to a data register; the arithmetic itself is also
//! available on a given operand.

use vstd::prelude::*;
use crate::m68k::cpu::{CpuCore, CpuException, NVFLAG_SET, RUN_MODE_BERR_AERR_RESET, ZERO_DIVIDE_EXCEPTION_CYCLES};
use crate::m68k::cpu::spec_fault;
use crate::m68k::ea::{AddressingMode, EaResult, mode_register_ok, data_and_flags_kept, spec_is_020_plus, spec_resolve_ea};
use crate::m68k::fpu::spec_long_read;
use crate::m68k::memory::AddressBus;
use crate::m68k::types::{Size, size_modulus};

verus! {

/// Cycles of MULU and MULS.
pub const MULTIPLY_CYCLES: i32 = 38;

/// Cycles of DIVU.
pub const DIVU_CYCLES: i32 = 140;

/// Cycles of DIVS.
pub const DIVS_CYCLES: i32 = 158;

/// Cycles charged when reading the operand raised a bus or address error.
pub const OPERAND_FAULT_CYCLES: i32 = 50;

/// Value of the low word of `x` read as a signed number.
pub open spec fn signed16(x: int) -> int {
    if x % 0x1_0000 >= 0x8000 { x % 0x1_0000 - 0x1_0000 } else { x % 0x1_0000 }
}

/// Value of a long read as a signed number.
pub open spec fn signed32(x: u32) -> int {
    if x >= 0x8000_0000 { x - 0x1_0000_0000 } else { x as int }
}

/// Two's complement bit pattern of `x` in `2^bits` (for `-2^bits < x < 2^bits`).
pub open spec fn pattern(x: int, modulus: int) -> int {
    if x < 0 { x + modulus } else { x }
}

/// Absolute value.
pub open spec fn abs(x: int) -> int {
    if x < 0 { -x } else { x }
}

/// Quotient rounded towards zero.
pub open spec fn trunc_div(a: int, b: int) -> int {
    let q = abs(a) / abs(b);
    if (a < 0) == (b < 0) { q } else { -q }
}

/// Remainder of the division rounded towards zero; it takes the dividend's sign.
pub open spec fn trunc_rem(a: int, b: int) -> int {
    let r = abs(a) % abs(b);
    if a < 0 { -r } else { r }
}

/// N flag of a 32-bit result.
pub open spec fn n_of_long(result: int) -> u32 {
    if result >= 0x8000_0000 { NVFLAG_SET } else { 0 }
}

/// N flag of a 16-bit result.
pub open spec fn n_of_word(result: int) -> u32 {
    if result >= 0x8000 { NVFLAG_SET } else { 0 }
}

/// State after MULU with source word `src` into data register `dst`: the
/// 32-bit product of the low words, N from bit 31, Z from the product, V and
/// C clear.
pub open spec fn spec_mulu(s: CpuCore, src: u32, dst: int) -> CpuCore {
    let result = (s.dar@[dst] % 0x1_0000) * src;
    CpuCore {
        dar: vstd::array::spec_array_update(s.dar, dst, result as u32),
        not_z_flag: result as u32,
        n_flag: n_of_long(result),
        v_flag: 0,
        c_flag: 0,
        ..s
    }
}

/// State after MULS with source word `src` into data register `dst`: the
/// signed 32-bit product of the low words read as signed numbers.
pub open spec fn spec_muls(s: CpuCore, src: u32, dst: int) -> CpuCore {
    let result = pattern(signed16(src as int) * signed16(s.dar@[dst] as int), 0x1_0000_0000);
    CpuCore {
        dar: vstd::array::spec_array_update(s.dar, dst, result as u32),
        not_z_flag: result as u32,
        n_flag: n_of_long(result),
        v_flag: 0,
        c_flag: 0,
        ..s
    }
}

/// State after a divide whose quotient does not fit in a word: V is set; in
/// single-step compatibility mode N is set and Z and C clear; nothing else
/// changes.
pub open spec fn spec_divide_overflow(s: CpuCore) -> CpuCore {
    if s.sst_m68000_compat {
        CpuCore { v_flag: NVFLAG_SET, n_flag: NVFLAG_SET, not_z_flag: 1, c_flag: 0, ..s }
    } else {
        CpuCore { v_flag: NVFLAG_SET, ..s }
    }
}

/// State after a divide that stores remainder `rem` and quotient `quot` (as
/// word patterns) in data register `dst`: the remainder in the high word,
/// the quotient in the low word, N and Z from the quotient, V and C clear.
pub open spec fn spec_divide_store(s: CpuCore, dst: int, rem: int, quot: int) -> CpuCore {
    CpuCore {
        dar: vstd::array::spec_array_update(s.dar, dst, (rem * 0x1_0000 + quot) as u32),
        not_z_flag: quot as u32,
        n_flag: n_of_word(quot),
        v_flag: 0,
        c_flag: 0,
        ..s
    }
}

/// State and cycles after DIVU of data register `dst` by source word `src`.
pub open spec fn spec_divu(s: CpuCore, src: u32, dst: int) -> (CpuCore, i32) {
    let d = s.dar@[dst] as int;
    if src == 0 {
        (CpuCore { pending_exception: Some(CpuException::ZeroDivide), ..s }, ZERO_DIVIDE_EXCEPTION_CYCLES)
    } else if d / (src as int) >= 0x1_0000 {
        (spec_divide_overflow(s), DIVU_CYCLES)
    } else {
        (spec_divide_store(s, dst, d % (src as int), d / (src as int)), DIVU_CYCLES)
    }
}

/// State and cycles after DIVS of data register `dst` by the signed source
/// word `src`, the quotient rounded towards zero and the remainder taking the
/// dividend's sign. The most negative long divided by -1 leaves zero.
pub open spec fn spec_divs(s: CpuCore, src: u32, dst: int) -> (CpuCore, i32) {
    let a = signed32(s.dar@[dst]);
    let b = signed16(src as int);
    if b == 0 {
        (CpuCore { pending_exception: Some(CpuException::ZeroDivide), ..s }, ZERO_DIVIDE_EXCEPTION_CYCLES)
    } else if a == -0x8000_0000 && b == -1 {
        (
            CpuCore {
                dar: vstd::array::spec_array_update(s.dar, dst, 0u32),
                not_z_flag: 0,
                n_flag: 0,
                v_flag: 0,
                c_flag: 0,
                ..s
            },
            DIVS_CYCLES,
        )
    } else if trunc_div(a, b) < -0x8000 || trunc_div(a, b) > 0x7FFF {
        (spec_divide_overflow(s), DIVS_CYCLES)
    } else {
        (
            spec_divide_store(s, dst, pattern(trunc_rem(a, b), 0x1_0000), pattern(trunc_div(a, b), 0x1_0000)),
            DIVS_CYCLES,
        )
    }
}

/// A memory operand read of `size` at `addr` by core `c`: a byte is read
/// from the bus at the masked address; a word or long at an odd address on a
/// 68000 or 68010 raises an address error and reads 0 without touching the
/// bus; otherwise the bus either gives `r`, the core unchanged, or faults,
/// raising a bus error and reading 0.
pub open spec fn spec_operand_read<B: AddressBus>(c: CpuCore, b: B, addr: u32, size: Size, c2: CpuCore, b2: B, r: u32) -> bool {
    let a = addr & c.address_mask;
    let fault = r == 0 && c2 == spec_fault(c, CpuException::BusError { address: a, write: false, instruction: false });
    match size {
        Size::Byte => (c2 == c && r < 0x100 && b.byte_read(a, b2, r as u8)) || fault,
        Size::Word => if addr % 2 != 0 && !spec_is_020_plus(c.cpu_type) {
            r == 0 && b2 == b && c2 == spec_fault(
                c,
                CpuException::AddressError { address: addr, write: false, instruction: false },
            )
        } else {
            (c2 == c && r < 0x1_0000 && b.word_read(a, b2, r as u16)) || fault
        },
        Size::Long => spec_long_read(c, b, addr, c2, b2, r),
    }
}

/// An immediate operand of `size` read from the instruction stream at `a`:
/// a byte is the low byte of its word.
pub open spec fn spec_immediate_operand<B: AddressBus>(b: B, a: u32, size: Size, b2: B, r: u32) -> bool {
    match size {
        Size::Byte => exists|w: u16| #[trigger] b.word_read(a, b2, w) && r == w % 256,
        Size::Word => r < 0x1_0000 && b.word_read(a, b2, r as u16),
        Size::Long => b.long_read(a, b2, r),
    }
}

/// The operand of `size` that a resolved effective address `ea` designates,
/// read by the core `mid` with the bus at `bm`, the core ending as `new`
/// and the bus as `nb`: a register gives its low bits; a memory operand is
/// read through the bus at the address; an immediate comes from the
/// instruction stream.
pub open spec fn spec_ea_operand<B: AddressBus>(mid: CpuCore, bm: B, ea: EaResult, size: Size, new: CpuCore, nb: B, r: u32) -> bool {
    match ea {
        EaResult::DataReg(reg) => new == mid && r == mid.dar@[reg as int] as int % size_modulus(size) as int,
        EaResult::AddrReg(reg) => new == mid && r == mid.dar@[8 + reg] as int % size_modulus(size) as int,
        EaResult::Memory(addr) => spec_operand_read(mid, bm, addr, size, new, nb, r),
        EaResult::Immediate(addr) => new == mid && spec_immediate_operand(bm, addr & mid.address_mask, size, nb, r),
    }
}

/// The operand of `size` that `mode` designates, read by the core `old`
/// (not handling a bus or address error) with the bus going from `ob` to
/// `nb`, the core ending as `new`: the effective address is resolved, its
/// extension words read from the instruction stream, and the operand read
/// there.
pub open spec fn spec_ea_read<B: AddressBus>(old: CpuCore, ob: B, mode: AddressingMode, size: Size, new: CpuCore, nb: B, r: u32) -> bool {
    exists|mid: CpuCore, bm: B, ea: EaResult|
        #[trigger] spec_resolve_ea(old, ob, mode, size, mid, bm, ea) && spec_ea_operand(mid, bm, ea, size, new, nb, r)
}

/// The word source operand `src` of a multiply or divide, read by the core
/// `old` with the bus going from `ob` to `nb`; `m` is the core after the
/// read.
pub open spec fn spec_word_source<B: AddressBus>(old: CpuCore, ob: B, mode: AddressingMode, nb: B, m: CpuCore, src: u32) -> bool {
    spec_ea_read(old, ob, mode, Size::Word, m, nb, src)
}

impl CpuCore {
    /// Read a memory operand. A word or long at an odd address raises an
    /// address error on CPUs before the 68020; a bus fault raises a bus error.
    /// Either reads 0.
    fn read_memory<B: AddressBus>(&mut self, bus: &mut B, addr: u32, size: Size) -> (r: u32)
        ensures
            data_and_flags_kept(*old(self), *final(self)),
            r < size_modulus(size),
            spec_operand_read(*old(self), *old(bus), addr, size, *final(self), *final(bus), r),
    {
        proof {
            vstd::arithmetic::power2::lemma2_to64();
        }
        let a = self.address(addr);
        match size {
            Size::Byte => match bus.try_read_byte(a) {
                Ok(v) => v as u32,
                Err(_) => {
                    self.trigger_bus_error(a, false, false);
                    0
                },
            },
            Size::Word => {
                if addr % 2 != 0 && !self.is_020_plus() {
                    self.trigger_address_error(addr, false, false);
                    0
                } else {
                    match bus.try_read_word(a) {
                        Ok(v) => v as u32,
                        Err(_) => {
                            self.trigger_bus_error(a, false, false);
                            0
                        },
                    }
                }
            },
            Size::Long => {
                if addr % 2 != 0 && !self.is_020_plus() {
                    self.trigger_address_error(addr, false, false);
                    0
                } else {
                    match bus.try_read_long(a) {
                        Ok(v) => v,
                        Err(_) => {
                            self.trigger_bus_error(a, false, false);
                            0
                        },
                    }
                }
            },
        }
    }

    /// Read the operand an effective address designates, reduced to `size`.
    /// Register operands are exact; memory and immediate operands come from
    /// the bus.
    pub fn read_ea<B: AddressBus>(&mut self, bus: &mut B, mode: AddressingMode, size: Size) -> (r: u32)
        requires
            mode_register_ok(mode),
        ensures
            data_and_flags_kept(*old(self), *final(self)),
            r < size_modulus(size),
            old(self).run_mode != RUN_MODE_BERR_AERR_RESET ==> match mode {
                AddressingMode::DataDirect(reg) => r == old(self).dar@[reg as int] as int % size_modulus(size) as int
                    && *final(self) == *old(self),
                AddressingMode::AddressDirect(reg) => r == old(self).dar@[8 + reg] as int % size_modulus(size) as int
                    && *final(self) == *old(self),
                _ => true,
            },
            old(self).run_mode != RUN_MODE_BERR_AERR_RESET ==> spec_ea_read(
                *old(self),
                *old(bus),
                mode,
                size,
                *final(self),
                *final(bus),
                r,
            ),
    {
        let m = size.modulus();
        let ea = self.resolve_ea(bus, mode, size);
        let ghost mid = *self;
        let ghost bm = *bus;
        match ea {
            EaResult::DataReg(reg) => {
                let r = ((self.d(reg as usize) as u64) % m) as u32;
                proof {
                    if old(self).run_mode != RUN_MODE_BERR_AERR_RESET {
                        assert(spec_resolve_ea(*old(self), *old(bus), mode, size, mid, bm, ea));
                        assert(spec_ea_operand(mid, bm, ea, size, *self, *bus, r));
                    }
                }
                r
            },
            EaResult::AddrReg(reg) => {
                let r = ((self.a(reg as usize) as u64) % m) as u32;
                proof {
                    if old(self).run_mode != RUN_MODE_BERR_AERR_RESET {
                        assert(spec_resolve_ea(*old(self), *old(bus), mode, size, mid, bm, ea));
                        assert(spec_ea_operand(mid, bm, ea, size, *self, *bus, r));
                    }
                }
                r
            },
            EaResult::Memory(addr) => {
                let r = self.read_memory(bus, addr, size);
                proof {
                    if old(self).run_mode != RUN_MODE_BERR_AERR_RESET {
                        assert(spec_resolve_ea(*old(self), *old(bus), mode, size, mid, bm, ea));
                        assert(spec_ea_operand(mid, bm, ea, size, *self, *bus, r));
                    }
                }
                r
            },
            EaResult::Immediate(addr) => {
                let a = self.address(addr);
                let r = match size {
                    Size::Byte => {
                        let w = bus.read_immediate_word(a);
                        (w % 256) as u32
                    },
                    Size::Word => bus.read_immediate_word(a) as u32,
                    Size::Long => bus.read_immediate_long(a),
                };
                proof {
                    if old(self).run_mode != RUN_MODE_BERR_AERR_RESET {
                        assert(spec_resolve_ea(*old(self), *old(bus), mode, size, mid, bm, ea));
                        assert(spec_ea_operand(mid, bm, ea, size, *self, *bus, r));
                    }
                }
                r
            },
        }
    }

    /// MULU arithmetic on a source word already read.
    #[verifier::spinoff_prover]
    pub fn apply_mulu(&mut self, src: u32, dst_reg: usize) -> (r: i32)
        requires
            src <= 0xFFFF,
            dst_reg < 8,
        ensures
            *final(self) == spec_mulu(*old(self), src, dst_reg as int),
            r == MULTIPLY_CYCLES,
    {
        let dst = self.d(dst_reg) % 0x1_0000;
        proof {
            assert(dst * src <= 0xFFFF * 0xFFFF) by (nonlinear_arith)
                requires
                    dst <= 0xFFFF,
                    src <= 0xFFFF,
            ;
        }
        let result = dst * src;
        self.set_d(dst_reg, result);
        self.not_z_flag = result;
        self.n_flag = if result >= 0x8000_0000 { NVFLAG_SET } else { 0 };
        self.v_flag = 0;
        self.c_flag = 0;
        proof {
            assert(self.dar =~= vstd::array::spec_array_update(old(self).dar, dst_reg as int, result));
        }
        MULTIPLY_CYCLES
    }

    /// Execute MULU (unsigned 16x16 -> 32 multiply).
    ///
    /// MULU <ea>, Dn
    pub fn exec_mulu<B: AddressBus>(&mut self, bus: &mut B, mode: AddressingMode, dst_reg: usize) -> (r: i32)
        requires
            mode_register_ok(mode),
            dst_reg < 8,
        ensures
            r == MULTIPLY_CYCLES || r == OPERAND_FAULT_CYCLES,
            r == OPERAND_FAULT_CYCLES <==> final(self).run_mode == RUN_MODE_BERR_AERR_RESET,
            r == MULTIPLY_CYCLES ==> exists|src: u32, mid: CpuCore|
                src <= 0xFFFF && data_and_flags_kept(*old(self), mid) && #[trigger] spec_mulu(mid, src, dst_reg as int)
                    == *final(self),
            old(self).run_mode != RUN_MODE_BERR_AERR_RESET ==> match mode {
                AddressingMode::DataDirect(reg) => *final(self) == spec_mulu(
                    *old(self),
                    (old(self).dar@[reg as int] % 0x1_0000) as u32,
                    dst_reg as int,
                ),
                _ => true,
            },
            old(self).run_mode != RUN_MODE_BERR_AERR_RESET
                ==> exists|m: CpuCore, src: u32|
                #[trigger] spec_word_source(*old(self), *old(bus), mode, *final(bus), m, src) && (m.run_mode
                    == RUN_MODE_BERR_AERR_RESET ==> r == OPERAND_FAULT_CYCLES && *final(self) == m) && (m.run_mode
                    != RUN_MODE_BERR_AERR_RESET ==> r == MULTIPLY_CYCLES && *final(self) == spec_mulu(m, src, dst_reg as int)),
    {
        let src = self.read_ea(bus, mode, Size::Word);
        let ghost m = *self;
        proof {
            vstd::arithmetic::power2::lemma2_to64();
            if old(self).run_mode != RUN_MODE_BERR_AERR_RESET {
                assert(spec_word_source(*old(self), *old(bus), mode, *bus, m, src));
            }
        }
        if self.run_mode == RUN_MODE_BERR_AERR_RESET {
            return OPERAND_FAULT_CYCLES;
        }
        proof {
            vstd::arithmetic::power2::lemma2_to64();
        }
        let ghost mid = *self;
        let r = self.apply_mulu(src, dst_reg);
        assert(spec_mulu(mid, src, dst_reg as int) == *self);
        r
    }

    /// MULS arithmetic on a source word already read.
    #[verifier::spinoff_prover]
    pub fn apply_muls(&mut self, src: u32, dst_reg: usize) -> (r: i32)
        requires
            dst_reg < 8,
        ensures
            *final(self) == spec_muls(*old(self), src, dst_reg as int),
            r == MULTIPLY_CYCLES,
    {
        let a = signed_word(src);
        let b = signed_word(self.d(dst_reg));
        proof {
            assert(-0x4000_0000 <= a * b <= 0x4000_0000) by (nonlinear_arith)
                requires
                    -0x8000 <= a <= 0x7FFF,
                    -0x8000 <= b <= 0x7FFF,
            ;
        }
        let product = a * b;
        let result: u32 = if product < 0 {
            (product + 0x1_0000_0000) as u32
        } else {
            product as u32
        };
        self.set_d(dst_reg, result);
        self.not_z_flag = result;
        self.n_flag = if result >= 0x8000_0000 { NVFLAG_SET } else { 0 };
        self.v_flag = 0;
        self.c_flag = 0;
        proof {
            assert(self.dar =~= vstd::array::spec_array_update(old(self).dar, dst_reg as int, result));
        }
        MULTIPLY_CYCLES
    }

    /// Execute MULS (signed 16x16 -> 32 multiply).
    ///
    /// MULS <ea>, Dn
    pub fn exec_muls<B: AddressBus>(&mut self, bus: &mut B, mode: AddressingMode, dst_reg: usize) -> (r: i32)
        requires
            mode_register_ok(mode),
            dst_reg < 8,
        ensures
            r == MULTIPLY_CYCLES || r == OPERAND_FAULT_CYCLES,
            r == OPERAND_FAULT_CYCLES <==> final(self).run_mode == RUN_MODE_BERR_AERR_RESET,
            r == MULTIPLY_CYCLES ==> exists|src: u32, mid: CpuCore|
                src <= 0xFFFF && data_and_flags_kept(*old(self), mid) && #[trigger] spec_muls(mid, src, dst_reg as int)
                    == *final(self),
            old(self).run_mode != RUN_MODE_BERR_AERR_RESET ==> match mode {
                AddressingMode::DataDirect(reg) => *final(self) == spec_muls(
                    *old(self),
                    (old(self).dar@[reg as int] % 0x1_0000) as u32,
                    dst_reg as int,
                ),
                _ => true,
            },
            old(self).run_mode != RUN_MODE_BERR_AERR_RESET
                ==> exists|m: CpuCore, src: u32|
                #[trigger] spec_word_source(*old(self), *old(bus), mode, *final(bus), m, src) && (m.run_mode
                    == RUN_MODE_BERR_AERR_RESET ==> r == OPERAND_FAULT_CYCLES && *final(self) == m) && (m.run_mode
                    != RUN_MODE_BERR_AERR_RESET ==> r == MULTIPLY_CYCLES && *final(self) == spec_muls(m, src, dst_reg as int)),
    {
        let src = self.read_ea(bus, mode, Size::Word);
        let ghost m = *self;
        proof {
            vstd::arithmetic::power2::lemma2_to64();
            if old(self).run_mode != RUN_MODE_BERR_AERR_RESET {
                assert(spec_word_source(*old(self), *old(bus), mode, *bus, m, src));
            }
        }
        if self.run_mode == RUN_MODE_BERR_AERR_RESET {
            return OPERAND_FAULT_CYCLES;
        }
        proof {
            vstd::arithmetic::power2::lemma2_to64();
        }
        let ghost mid = *self;
        let r = self.apply_muls(src, dst_reg);
        assert(spec_muls(mid, src, dst_reg as int) == *self);
        r
    }

    /// DIVU arithmetic on a source word already read.
    #[verifier::spinoff_prover]
    pub fn apply_divu(&mut self, src: u32, dst_reg: usize) -> (r: i32)
        requires
            src <= 0xFFFF,
            dst_reg < 8,
        ensures
            (*final(self), r) == spec_divu(*old(self), src, dst_reg as int),
    {
        let dst = self.d(dst_reg);
        if src == 0 {
            return self.exception_zero_divide();
        }
        let quotient = dst / src;
        let remainder = dst % src;
        if quotient >= 0x1_0000 {
            self.v_flag = NVFLAG_SET;
            if self.sst_m68000_compat {
                self.n_flag = NVFLAG_SET;
                self.not_z_flag = 1;
                self.c_flag = 0;
            }
            return DIVU_CYCLES;
        }
        let value = remainder * 0x1_0000 + quotient;
        self.set_d(dst_reg, value);
        self.not_z_flag = quotient;
        self.n_flag = if quotient >= 0x8000 { NVFLAG_SET } else { 0 };
        self.v_flag = 0;
        self.c_flag = 0;
        proof {
            assert(self.dar =~= vstd::array::spec_array_update(old(self).dar, dst_reg as int, value));
        }
        DIVU_CYCLES
    }

    /// Execute DIVU (unsigned 32÷16 -> 16Q + 16R).
    ///
    /// DIVU <ea>, Dn
    /// Result: Dn[31:16] = remainder, Dn[15:0] = quotient
    pub fn exec_divu<B: AddressBus>(&mut self, bus: &mut B, mode: AddressingMode, dst_reg: usize) -> (r: i32)
        requires
            mode_register_ok(mode),
            dst_reg < 8,
        ensures
            r == OPERAND_FAULT_CYCLES ==> final(self).run_mode == RUN_MODE_BERR_AERR_RESET,
            r != OPERAND_FAULT_CYCLES ==> exists|src: u32, mid: CpuCore|
                src <= 0xFFFF && data_and_flags_kept(*old(self), mid) && mid.run_mode != RUN_MODE_BERR_AERR_RESET
                    && #[trigger] spec_divu(mid, src, dst_reg as int) == (*final(self), r),
            old(self).run_mode != RUN_MODE_BERR_AERR_RESET ==> match mode {
                AddressingMode::DataDirect(reg) => (*final(self), r) == spec_divu(
                    *old(self),
                    (old(self).dar@[reg as int] % 0x1_0000) as u32,
                    dst_reg as int,
                ),
                _ => true,
            },
            old(self).run_mode != RUN_MODE_BERR_AERR_RESET
                ==> exists|m: CpuCore, src: u32|
                #[trigger] spec_word_source(*old(self), *old(bus), mode, *final(bus), m, src) && (m.run_mode
                    == RUN_MODE_BERR_AERR_RESET ==> r == OPERAND_FAULT_CYCLES && *final(self) == m) && (m.run_mode
                    != RUN_MODE_BERR_AERR_RESET ==> (*final(self), r) == spec_divu(m, src, dst_reg as int)),
    {
        let src = self.read_ea(bus, mode, Size::Word);
        let ghost m = *self;
        proof {
            vstd::arithmetic::power2::lemma2_to64();
            if old(self).run_mode != RUN_MODE_BERR_AERR_RESET {
                assert(spec_word_source(*old(self), *old(bus), mode, *bus, m, src));
            }
        }
        if self.run_mode == RUN_MODE_BERR_AERR_RESET {
            return OPERAND_FAULT_CYCLES;
        }
        proof {
            vstd::arithmetic::power2::lemma2_to64();
        }
        let ghost mid = *self;
        let r = self.apply_divu(src, dst_reg);
        assert(spec_divu(mid, src, dst_reg as int) == (*self, r));
        r
    }

    /// DIVS arithmetic on a source word already read.
    #[verifier::spinoff_prover]
    pub fn apply_divs(&mut self, src: u32, dst_reg: usize) -> (r: i32)
        requires
            dst_reg < 8,
        ensures
            (*final(self), r) == spec_divs(*old(self), src, dst_reg as int),
    {
        let dst = self.d(dst_reg);
        let w = src % 0x1_0000;
        if w == 0 {
            return self.exception_zero_divide();
        }
        if dst == 0x8000_0000 && w == 0xFFFF {
            self.set_d(dst_reg, 0);
            self.not_z_flag = 0;
            self.n_flag = 0;
            self.v_flag = 0;
            self.c_flag = 0;
            proof {
                assert(self.dar =~= vstd::array::spec_array_update(old(self).dar, dst_reg as int, 0u32));
            }
            return DIVS_CYCLES;
        }
        let a_neg = dst >= 0x8000_0000;
        let a_mag: u64 = if a_neg { 0x1_0000_0000 - dst as u64 } else { dst as u64 };
        let b_neg = w >= 0x8000;
        let b_mag: u64 = if b_neg { 0x1_0000 - w as u64 } else { w as u64 };
        let q_mag = a_mag / b_mag;
        let r_mag = a_mag % b_mag;
        let q_neg = a_neg != b_neg;
        let overflow = if q_neg { q_mag > 0x8000 } else { q_mag > 0x7FFF };
        if overflow {
            self.v_flag = NVFLAG_SET;
            if self.sst_m68000_compat {
                self.n_flag = NVFLAG_SET;
                self.not_z_flag = 1;
                self.c_flag = 0;
            }
            return DIVS_CYCLES;
        }
        let quot: u32 = if q_neg && q_mag > 0 { (0x1_0000 - q_mag) as u32 } else { q_mag as u32 };
        let rem: u32 = if a_neg && r_mag > 0 { (0x1_0000 - r_mag) as u32 } else { r_mag as u32 };
        let value = rem * 0x1_0000 + quot;
        self.set_d(dst_reg, value);
        self.not_z_flag = quot;
        self.n_flag = if quot >= 0x8000 { NVFLAG_SET } else { 0 };
        self.v_flag = 0;
        self.c_flag = 0;
        proof {
            assert(self.dar =~= vstd::array::spec_array_update(old(self).dar, dst_reg as int, value));
        }
        DIVS_CYCLES
    }

    /// Execute DIVS (signed 32÷16 -> 16Q + 16R).
    ///
    /// DIVS <ea>, Dn
    /// Result: Dn[31:16] = remainder, Dn[15:0] = quotient
    pub fn exec_divs<B: AddressBus>(&mut self, bus: &mut B, mode: AddressingMode, dst_reg: usize) -> (r: i32)
        requires
            mode_register_ok(mode),
            dst_reg < 8,
        ensures
            r == OPERAND_FAULT_CYCLES ==> final(self).run_mode == RUN_MODE_BERR_AERR_RESET,
            r != OPERAND_FAULT_CYCLES ==> exists|src: u32, mid: CpuCore|
                src <= 0xFFFF && data_and_flags_kept(*old(self), mid) && mid.run_mode != RUN_MODE_BERR_AERR_RESET
                    && #[trigger] spec_divs(mid, src, dst_reg as int) == (*final(self), r),
            old(self).run_mode != RUN_MODE_BERR_AERR_RESET ==> match mode {
                AddressingMode::DataDirect(reg) => (*final(self), r) == spec_divs(
                    *old(self),
                    (old(self).dar@[reg as int] % 0x1_0000) as u32,
                    dst_reg as int,
                ),
                _ => true,
            },
            old(self).run_mode != RUN_MODE_BERR_AERR_RESET
                ==> exists|m: CpuCore, src: u32|
                #[trigger] spec_word_source(*old(self), *old(bus), mode, *final(bus), m, src) && (m.run_mode
                    == RUN_MODE_BERR_AERR_RESET ==> r == OPERAND_FAULT_CYCLES && *final(self) == m) && (m.run_mode
                    != RUN_MODE_BERR_AERR_RESET ==> (*final(self), r) == spec_divs(m, src, dst_reg as int)),
    {
        let src = self.read_ea(bus, mode, Size::Word);
        let ghost m = *self;
        proof {
            vstd::arithmetic::power2::lemma2_to64();
            if old(self).run_mode != RUN_MODE_BERR_AERR_RESET {
                assert(spec_word_source(*old(self), *old(bus), mode, *bus, m, src));
            }
        }
        if self.run_mode == RUN_MODE_BERR_AERR_RESET {
            return OPERAND_FAULT_CYCLES;
        }
        proof {
            vstd::arithmetic::power2::lemma2_to64();
        }
        let ghost mid = *self;
        let r = self.apply_divs(src, dst_reg);
        assert(spec_divs(mid, src, dst_reg as int) == (*self, r));
        r
    }
}

/// The low word of `x` read as a signed number.
fn signed_word(x: u32) -> (r: i64)
    ensures
        r == signed16(x as int),
        -0x8000 <= r <= 0x7FFF,
{
    let w = x % 0x1_0000;
    if w >= 0x8000 {
        w as i64 - 0x1_0000
    } else {
        w as i64
    }
}

} // verus!
