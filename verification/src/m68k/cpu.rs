//! Register file, condition codes and fault state of the CPU core.

use vstd::prelude::*;
use crate::m68k::types::{CpuType, Size, spec_size_mask, spec_size_msb};

verus! {

/// Value of `c_flag` when the carry is set.
pub const CFLAG_SET: u32 = 0x100;

/// Value of `n_flag` and `v_flag` when the flag is set.
pub const NVFLAG_SET: u32 = 0x80;

/// Normal instruction execution.
pub const RUN_MODE_NORMAL: u32 = 0;

/// A bus error, address error or reset is being processed; further effective
/// address side effects of the faulting instruction are suppressed.
pub const RUN_MODE_BERR_AERR_RESET: u32 = 1;

/// Cycles charged for taking the zero-divide trap.
pub const ZERO_DIVIDE_EXCEPTION_CYCLES: i32 = 38;

/// An exception raised by an instruction, waiting to be taken.
#[derive(Clone, Copy, Debug, PartialEq, Eq, Structural)]
pub enum CpuException {
    /// Word or long access to an odd address.
    AddressError { address: u32, write: bool, instruction: bool },
    /// The bus reported a fault.
    BusError { address: u32, write: bool, instruction: bool },
    /// Division by zero.
    ZeroDivide,
}

/// Register file and condition codes.
///
/// Flags are kept in the widened form used by fast interpreters: `n_flag` and
/// `v_flag` hold `0x80` when set, `c_flag` and `x_flag` hold `0x100` when set,
/// and `not_z_flag` holds the masked result (Z is set when it is zero).
#[derive(Clone, Copy, Debug)]
pub struct CpuCore {
    pub cpu_type: CpuType,
    /// D0–D7 followed by A0–A7.
    pub dar: [u32; 16],
    pub pc: u32,
    pub x_flag: u32,
    pub n_flag: u32,
    pub not_z_flag: u32,
    pub v_flag: u32,
    pub c_flag: u32,
    pub run_mode: u32,
    /// Deterministic N/Z on divide overflow, as single-step test fixtures expect.
    pub sst_m68000_compat: bool,
    /// Mask applied to every bus address (24 bits on 68000-class parts).
    pub address_mask: u32,
    /// Exception raised by the last instruction, if any.
    pub pending_exception: Option<CpuException>,
    /// Address of the instruction being executed.
    pub ppc: u32,
    /// Set when an instruction changes the flow of control.
    pub change_of_flow: bool,
    /// FPU control register.
    pub fpcr: u32,
    /// FPU status register (condition codes in bits 24–27).
    pub fpsr: u32,
    /// FPU instruction address register.
    pub fpiar: u32,
    /// FPU data registers FP0–FP7 as IEEE 754 double bit patterns.
    pub fpr: [u64; 8],
    /// Whether the FPU is in its reset (null) state, which FSAVE reports
    /// with a null frame.
    pub fpu_just_reset: bool,
}

/// Bit pattern of the quiet NaN held by FPU data registers after reset.
pub const FPR_RESET_NAN: u64 = 0x7FF8_0000_0000_0000;

/// Address mask of a CPU model: 24 address lines on the 68000, 68010 and
/// 68EC020, 32 on the others.
pub open spec fn spec_address_mask(cpu_type: CpuType) -> u32 {
    match cpu_type {
        CpuType::M68000 | CpuType::M68010 | CpuType::M68EC020 => 0x00FF_FFFF,
        _ => 0xFFFF_FFFF,
    }
}

/// N flag for `value` of `size`.
pub open spec fn spec_n_flag(value: u32, size: Size) -> u32 {
    if value & spec_size_msb(size) != 0 { NVFLAG_SET } else { 0 }
}

/// State after setting N and Z from `value`, leaving V and C alone.
pub open spec fn spec_nz(s: CpuCore, value: u32, size: Size) -> CpuCore {
    CpuCore { n_flag: spec_n_flag(value, size), not_z_flag: value & spec_size_mask(size), ..s }
}

/// State after the logical-result flag rule: N and Z from `value`, V and C clear.
pub open spec fn spec_logic_flags(s: CpuCore, value: u32, size: Size) -> CpuCore {
    CpuCore { v_flag: 0, c_flag: 0, ..spec_nz(s, value, size) }
}

/// State after a fault: the exception is recorded and further effective
/// address side effects are suppressed.
pub open spec fn spec_fault(s: CpuCore, e: CpuException) -> CpuCore {
    CpuCore { pending_exception: Some(e), run_mode: RUN_MODE_BERR_AERR_RESET, ..s }
}

impl CpuCore {
    /// A core of the given model with all registers and flags clear and the
    /// FPU in its reset state (data registers holding NaN).
    pub fn new(cpu_type: CpuType) -> (r: Self)
        ensures
            r.cpu_type == cpu_type,
            forall|i: int| 0 <= i < 16 ==> r.dar@[i] == 0,
            r.pc == 0,
            r.x_flag == 0 && r.n_flag == 0 && r.not_z_flag == 0 && r.v_flag == 0 && r.c_flag == 0,
            r.run_mode == RUN_MODE_NORMAL,
            !r.sst_m68000_compat,
            r.address_mask == spec_address_mask(cpu_type),
            r.pending_exception is None,
            r.ppc == 0 && !r.change_of_flow,
            r.fpcr == 0 && r.fpsr == 0 && r.fpiar == 0 && r.fpu_just_reset,
            forall|i: int| 0 <= i < 8 ==> r.fpr@[i] == FPR_RESET_NAN,
    {
        let address_mask: u32 = match cpu_type {
            CpuType::M68000 | CpuType::M68010 | CpuType::M68EC020 => 0x00FF_FFFF,
            _ => 0xFFFF_FFFF,
        };
        CpuCore {
            cpu_type,
            dar: [0; 16],
            pc: 0,
            x_flag: 0,
            n_flag: 0,
            not_z_flag: 0,
            v_flag: 0,
            c_flag: 0,
            run_mode: RUN_MODE_NORMAL,
            sst_m68000_compat: false,
            address_mask,
            pending_exception: None,
            ppc: 0,
            change_of_flow: false,
            fpcr: 0,
            fpsr: 0,
            fpiar: 0,
            fpr: [FPR_RESET_NAN; 8],
            fpu_just_reset: true,
        }
    }

    /// Data register `n`.
    pub fn d(&self, n: usize) -> (r: u32)
        requires
            n < 8,
        ensures
            r == self.dar@[n as int],
    {
        self.dar[n]
    }

    /// Set data register `n`.
    pub fn set_d(&mut self, n: usize, value: u32)
        requires
            n < 8,
        ensures
            *final(self) == (CpuCore { dar: final(self).dar, ..*old(self) }),
            final(self).dar@ == old(self).dar@.update(n as int, value),
    {
        self.dar[n] = value;
    }

    /// Address register `n`.
    pub fn a(&self, n: usize) -> (r: u32)
        requires
            n < 8,
        ensures
            r == self.dar@[8 + n],
    {
        self.dar[8 + n]
    }

    /// Set address register `n`.
    pub fn set_a(&mut self, n: usize, value: u32)
        requires
            n < 8,
        ensures
            *final(self) == (CpuCore { dar: final(self).dar, ..*old(self) }),
            final(self).dar@ == old(self).dar@.update(8 + n, value),
    {
        self.dar[8 + n] = value;
    }

    /// The bus address a CPU address reaches.
    pub fn address(&self, addr: u32) -> (r: u32)
        ensures
            r == addr & self.address_mask,
    {
        addr & self.address_mask
    }

    /// Set N and Z from `value`, clear V and C.
    pub fn set_logic_flags(&mut self, value: u32, size: Size)
        ensures
            *final(self) == spec_logic_flags(*old(self), value, size),
    {
        self.n_flag = if value & size.msb_mask() != 0 { NVFLAG_SET } else { 0 };
        self.not_z_flag = value & size.mask();
        self.v_flag = 0;
        self.c_flag = 0;
    }

    /// Raise an address error for an access to `address`.
    pub fn trigger_address_error(&mut self, address: u32, write: bool, instruction: bool)
        ensures
            *final(self) == spec_fault(*old(self), CpuException::AddressError { address, write, instruction }),
    {
        self.pending_exception = Some(CpuException::AddressError { address, write, instruction });
        self.run_mode = RUN_MODE_BERR_AERR_RESET;
    }

    /// Raise a bus error for an access to `address`.
    pub fn trigger_bus_error(&mut self, address: u32, write: bool, instruction: bool)
        ensures
            *final(self) == spec_fault(*old(self), CpuException::BusError { address, write, instruction }),
    {
        self.pending_exception = Some(CpuException::BusError { address, write, instruction });
        self.run_mode = RUN_MODE_BERR_AERR_RESET;
    }

    /// Raise the zero-divide trap; returns the cycles it takes.
    pub fn exception_zero_divide(&mut self) -> (r: i32)
        ensures
            *final(self) == (CpuCore { pending_exception: Some(CpuException::ZeroDivide), ..*old(self) }),
            r == ZERO_DIVIDE_EXCEPTION_CYCLES,
    {
        self.pending_exception = Some(CpuException::ZeroDivide);
        ZERO_DIVIDE_EXCEPTION_CYCLES
    }
}

} // verus!
