//! The integer side of the floating-point unit: the condition tests of FBcc
//! and FScc, FSAVE and FRESTORE of the null and idle state frames, and FPU
//! effective addresses. Arithmetic on the data registers is not here.

use vstd::prelude::*;
use vstd::array::spec_array_update;
use vstd::arithmetic::power2::pow2;
use crate::m68k::cpu::{CpuCore, CpuException, FPR_RESET_NAN, spec_fault};
use crate::m68k::ea::{add32, lemma_wrapping_add32, sext16, sign_extend_word, spec_imm_read, spec_is_020_plus};
use crate::m68k::memory::AddressBus;
use crate::m68k::types::Size;

verus! {

/// FPSR condition code: negative.
pub const FPCC_N: u32 = 0x0800_0000;
/// FPSR condition code: zero.
pub const FPCC_Z: u32 = 0x0400_0000;
/// FPSR condition code: infinity.
pub const FPCC_I: u32 = 0x0200_0000;
/// FPSR condition code: not a number.
pub const FPCC_NAN: u32 = 0x0100_0000;

/// Cycles charged for FBcc.
pub const FBCC_CYCLES: i32 = 8;
/// Cycles charged for FScc.
pub const FSCC_CYCLES: i32 = 4;
/// Cycles charged for FSAVE and FRESTORE.
pub const FSAVE_CYCLES: i32 = 8;

/// Whether FPU condition `condition` holds for the FPSR condition codes. The
/// IEEE-aware predicates 0x02–0x0D are not supported and never hold.
pub open spec fn spec_fpu_condition(fpsr: u32, condition: u8) -> bool {
    let n = fpsr & FPCC_N != 0;
    let z = fpsr & FPCC_Z != 0;
    let nan = fpsr & FPCC_NAN != 0;
    if condition == 0x01 || condition == 0x11 {
        z
    } else if condition == 0x0E {
        !nan && !z
    } else if condition == 0x0F || condition == 0x1F {
        true
    } else if condition == 0x12 {
        !(nan || z || n)
    } else if condition == 0x13 {
        z || !(nan || n)
    } else if condition == 0x14 {
        n && !(nan || z)
    } else if condition == 0x15 {
        z || (n && !nan)
    } else if condition == 0x16 {
        !(nan || z)
    } else if condition == 0x17 {
        !nan
    } else if condition == 0x18 {
        nan
    } else if condition == 0x19 {
        nan || z
    } else if condition == 0x1A {
        nan || !(n || z)
    } else if condition == 0x1B {
        nan || z || !n
    } else if condition == 0x1C {
        nan || (n && !z)
    } else if condition == 0x1D {
        nan || n || z
    } else if condition == 0x1E {
        !z
    } else {
        false
    }
}

/// Whether FPU condition `condition` holds for the FPSR condition codes.
pub fn fpu_condition(fpsr: u32, condition: u8) -> (r: bool)
    ensures
        r == spec_fpu_condition(fpsr, condition),
{
    let n = (fpsr & FPCC_N) != 0;
    let z = (fpsr & FPCC_Z) != 0;
    let nan = (fpsr & FPCC_NAN) != 0;
    match condition {
        0x01 | 0x11 => z,
        0x0E => !nan && !z,
        0x0F | 0x1F => true,
        0x12 => !(nan || z || n),
        0x13 => z || !(nan || n),
        0x14 => n && !(nan || z),
        0x15 => z || (n && !nan),
        0x16 => !(nan || z),
        0x17 => !nan,
        0x18 => nan,
        0x19 => nan || z,
        0x1A => nan || !(n || z),
        0x1B => nan || z || !n,
        0x1C => nan || (n && !z),
        0x1D => nan || n || z,
        0x1E => !z,
        _ => false,
    }
}

/// How the FPU branch conditions relate, for every FPSR. With EQ (0x01),
/// LT (0x14), GT (0x12) and UN (unordered, 0x18):
/// - EQ holds exactly when the result was zero, UN exactly when it was a NaN;
/// - an ordered result (not UN) is exactly one of EQ, LT and GT, and a
///   nonzero one is LT exactly when it is negative;
/// - LE (0x15) is EQ or LT, GE (0x13) is EQ or GT, GL (0x16) is LT or GT,
///   OR (0x17) is not UN, NE (0x1E) is not EQ, and 0x11 is EQ;
/// - each unordered-or predicate is UN or its ordered counterpart: UEQ
///   (0x19), UGT (0x1A), UGE (0x1B), ULT (0x1C), ULE (0x1D);
/// - T (0x0F, 0x1F) always holds, F (0x00, 0x10) never.
pub proof fn law_fpu_condition_relations(fpsr: u32)
    ensures
        ({
            let c = |k: u8| spec_fpu_condition(fpsr, k);
            let eq = c(0x01);
            let lt = c(0x14);
            let gt = c(0x12);
            let un = c(0x18);
            &&& eq == (fpsr & FPCC_Z != 0)
            &&& un == (fpsr & FPCC_NAN != 0)
            &&& !un ==> ((eq as int) + (lt as int) + (gt as int) == 1)
            &&& (!un && !eq) ==> (lt == (fpsr & FPCC_N != 0))
            &&& c(0x15) == (eq || lt)
            &&& c(0x13) == (eq || gt)
            &&& c(0x16) == (lt || gt)
            &&& c(0x17) == !un
            &&& c(0x1E) == !eq
            &&& c(0x11) == eq
            &&& c(0x19) == (un || eq)
            &&& c(0x1A) == (un || gt)
            &&& c(0x1B) == (un || eq || gt)
            &&& c(0x1C) == (un || lt)
            &&& c(0x1D) == (un || eq || lt)
            &&& c(0x0F) && c(0x1F)
            &&& !c(0x00) && !c(0x10)
        }),
{
}

/// The byte FScc stores: `0xFF` when the condition holds, else 0.
pub open spec fn spec_fscc_byte(fpsr: u32, condition: u8) -> u8 {
    if spec_fpu_condition(fpsr, condition) {
        0xFF
    } else {
        0
    }
}

/// `new` is `old` except for the fault state: bus accesses whose data
/// nothing here describes may have raised an address or bus error.
pub open spec fn spec_only_faults(old: CpuCore, new: CpuCore) -> bool {
    new == (CpuCore { run_mode: new.run_mode, pending_exception: new.pending_exception, ..old })
}

/// The FPU after FRESTORE of a null frame: control registers clear, data
/// registers NaN, the FPU in its reset state.
pub open spec fn spec_null_restore(s: CpuCore) -> CpuCore {
    CpuCore {
        fpcr: 0,
        fpsr: 0,
        fpiar: 0,
        fpr: vstd::array::spec_array_fill_for_copy_type(FPR_RESET_NAN),
        fpu_just_reset: true,
        ..s
    }
}

/// Bytes beyond the header longword that FRESTORE skips for a frame type:
/// idle, unimplemented-instruction and busy frames.
pub open spec fn spec_frame_extra(header: u32) -> u32 {
    let kind = header & 0x00FF_0000;
    if kind == 0x0018_0000 {
        24
    } else if kind == 0x0038_0000 {
        56
    } else if kind == 0x00B4_0000 {
        180
    } else {
        0
    }
}

/// State after an FPU effective address is computed: `(An)`, `(An)+` and
/// `-(An)` give An (the caller adjusts it), `(d16,An)`, `(xxx).W`,
/// `(xxx).L` and `(d16,PC)` read their extension words; other modes give 0.
pub open spec fn spec_fpu_ea(old: CpuCore, new: CpuCore, ea_mode: u8, ea_reg: usize, r: u32) -> bool {
    if ea_mode == 2 || ea_mode == 3 || ea_mode == 4 {
        new == old && r == old.dar@[8 + ea_reg]
    } else if ea_mode == 5 {
        exists|w: u16| #![auto] spec_imm_read(old, new, w as int, 2) && r == add32(old.dar@[8 + ea_reg] as int, sext16(w as int))
    } else if ea_mode == 7 && ea_reg == 0 {
        exists|w: u16| #![auto] spec_imm_read(old, new, w as int, 2) && r == sext16(w as int)
    } else if ea_mode == 7 && ea_reg == 1 {
        exists|v: u32| #![auto] spec_imm_read(old, new, v as int, 4) && r == v
    } else if ea_mode == 7 && ea_reg == 2 {
        exists|w: u16| #![auto] spec_imm_read(old, new, w as int, 2) && r == add32(old.pc as int, sext16(w as int))
    } else {
        new == old && r == 0
    }
}

/// The extension words of an FPU effective address come from the bus `ob`
/// at the program counter, leaving it as `nb`: `(d16,An)`, `(xxx).W` and
/// `(d16,PC)` read a word, `(xxx).L` a longword (when the read does not
/// fault); other modes leave the bus alone.
pub open spec fn spec_fpu_ea_bus<B: AddressBus>(
    old: CpuCore,
    ob: B,
    new: CpuCore,
    nb: B,
    ea_mode: u8,
    ea_reg: usize,
    r: u32,
) -> bool {
    let at = old.pc & old.address_mask;
    if ea_mode == 5 {
        new.pc != old.pc ==> exists|w: u16|
            #[trigger] ob.word_read(at, nb, w) && r == add32(old.dar@[8 + ea_reg] as int, sext16(w as int))
    } else if ea_mode == 7 && ea_reg == 0 {
        new.pc != old.pc ==> exists|w: u16| #[trigger] ob.word_read(at, nb, w) && r == sext16(w as int)
    } else if ea_mode == 7 && ea_reg == 2 {
        new.pc != old.pc ==> exists|w: u16| #[trigger] ob.word_read(at, nb, w) && r == add32(old.pc as int, sext16(w as int))
    } else if ea_mode == 7 && ea_reg == 1 {
        new.pc != old.pc ==> ob.long_read(at, nb, r)
    } else {
        nb == ob
    }
}

/// State after FRESTORE reads frame header `header`: a null frame resets
/// the FPU, any other frame leaves it out of the reset state.
pub open spec fn spec_restore_header(s: CpuCore, header: u32) -> CpuCore {
    if header & 0xFF00_0000 == 0 {
        spec_null_restore(s)
    } else {
        CpuCore { fpu_just_reset: false, ..s }
    }
}

/// One long write by the core at `addr`: on a 68000 or 68010 an odd address
/// raises an address error and the bus is not touched; otherwise the bus
/// gets the write at the masked address and either takes it, the core
/// unchanged, or faults, raising a bus error (nothing is then known of the
/// bus).
pub open spec fn spec_long_write<B: AddressBus>(c: CpuCore, b: B, addr: u32, value: u32, c2: CpuCore, b2: B) -> bool {
    let a = addr & c.address_mask;
    if addr % 2 != 0 && !spec_is_020_plus(c.cpu_type) {
        c2 == spec_fault(c, CpuException::AddressError { address: addr, write: true, instruction: false }) && b2 == b
    } else {
        (c2 == c && b.long_written(a, value, b2)) || c2 == spec_fault(
            c,
            CpuException::BusError { address: a, write: true, instruction: false },
        )
    }
}

/// One byte write by the core at `addr`: the bus gets it at the masked
/// address and either takes it, the core unchanged, or faults, raising a
/// bus error.
pub open spec fn spec_byte_write<B: AddressBus>(c: CpuCore, b: B, addr: u32, value: u8, c2: CpuCore, b2: B) -> bool {
    let a = addr & c.address_mask;
    (c2 == c && b.byte_written(a, value, b2)) || c2 == spec_fault(
        c,
        CpuException::BusError { address: a, write: true, instruction: false },
    )
}

/// One long read by the core at `addr`: on a 68000 or 68010 an odd address
/// raises an address error, reads 0 and leaves the bus alone; otherwise the
/// bus is read at the masked address and either gives `r`, the core
/// unchanged, or faults, raising a bus error and reading 0.
pub open spec fn spec_long_read<B: AddressBus>(c: CpuCore, b: B, addr: u32, c2: CpuCore, b2: B, r: u32) -> bool {
    let a = addr & c.address_mask;
    if addr % 2 != 0 && !spec_is_020_plus(c.cpu_type) {
        r == 0 && b2 == b && c2 == spec_fault(
            c,
            CpuException::AddressError { address: addr, write: false, instruction: false },
        )
    } else {
        (c2 == c && b.long_read(a, b2, r)) || (r == 0 && c2 == spec_fault(
            c,
            CpuException::BusError { address: a, write: false, instruction: false },
        ))
    }
}

/// A run of long writes, in order, through the core states `cs` and bus
/// states `bs`: each write either reaches the bus or faults.
pub open spec fn spec_long_writes_via<B: AddressBus>(cs: Seq<CpuCore>, bs: Seq<B>, w: Seq<(u32, u32)>) -> bool {
    &&& cs.len() == w.len() + 1
    &&& bs.len() == w.len() + 1
    &&& forall|i: int|
        0 <= i < w.len() ==> #[trigger] spec_long_write(cs[i], bs[i], w[i].0, w[i].1, cs[i + 1], bs[i + 1])
}

/// The long writes `w`, in order, take the core from `c` to `c2` and the bus
/// from `b` to `b2`.
pub open spec fn spec_long_writes<B: AddressBus>(c: CpuCore, b: B, w: Seq<(u32, u32)>, c2: CpuCore, b2: B) -> bool {
    exists|cs: Seq<CpuCore>, bs: Seq<B>|
        #[trigger] spec_long_writes_via(cs, bs, w) && cs[0] == c && bs[0] == b && cs.last() == c2 && bs.last() == b2
}

/// The seven longwords of an idle state frame stored at `addr`, in the order
/// they are written: upwards from `addr` (format word first) when `inc`, else
/// downwards from it (last longword first).
pub open spec fn spec_fsave_frame(addr: u32, inc: bool) -> Seq<(u32, u32)> {
    if inc {
        seq![
            (addr, 0x1F18_0000u32),
            (add32(addr as int, 4), 0u32),
            (add32(addr as int, 8), 0u32),
            (add32(addr as int, 12), 0u32),
            (add32(addr as int, 16), 0u32),
            (add32(addr as int, 20), 0u32),
            (add32(addr as int, 24), 0x7000_0000u32),
        ]
    } else {
        seq![
            (addr, 0x7000_0000u32),
            (add32(addr as int, -4), 0u32),
            (add32(addr as int, -8), 0u32),
            (add32(addr as int, -12), 0u32),
            (add32(addr as int, -16), 0u32),
            (add32(addr as int, -20), 0u32),
            (add32(addr as int, -24), 0x1F18_0000u32),
        ]
    }
}

impl CpuCore {
    fn write_long_mem<B: AddressBus>(&mut self, bus: &mut B, addr: u32, value: u32)
        ensures
            spec_only_faults(*old(self), *final(self)),
            spec_long_write(*old(self), *old(bus), addr, value, *final(self), *final(bus)),
    {
        if addr % 2 != 0 && !self.is_020_plus() {
            self.trigger_address_error(addr, true, false);
            return;
        }
        let a = self.address(addr);
        match bus.try_write_long(a, value) {
            Ok(_) => {},
            Err(_) => {
                self.trigger_bus_error(a, true, false);
            },
        }
    }

    fn write_byte_mem<B: AddressBus>(&mut self, bus: &mut B, addr: u32, value: u8)
        ensures
            spec_only_faults(*old(self), *final(self)),
            spec_byte_write(*old(self), *old(bus), addr, value, *final(self), *final(bus)),
    {
        let a = self.address(addr);
        match bus.try_write_byte(a, value) {
            Ok(_) => {},
            Err(_) => {
                self.trigger_bus_error(a, true, false);
            },
        }
    }

    fn read_long_mem<B: AddressBus>(&mut self, bus: &mut B, addr: u32) -> (r: u32)
        ensures
            spec_only_faults(*old(self), *final(self)),
            spec_long_read(*old(self), *old(bus), addr, *final(self), *final(bus), r),
    {
        if addr % 2 != 0 && !self.is_020_plus() {
            self.trigger_address_error(addr, false, false);
            return 0;
        }
        let a = self.address(addr);
        match bus.try_read_long(a) {
            Ok(v) => v,
            Err(_) => {
                self.trigger_bus_error(a, false, false);
                0
            },
        }
    }

    /// FBcc: when the condition holds, branch to the displacement from the
    /// first extension word (the instruction address plus 2).
    pub fn exec_fbcc(&mut self, condition: u8, disp: i32) -> (r: i32)
        ensures
            r == FBCC_CYCLES,
            spec_fpu_condition(old(self).fpsr, condition) ==> *final(self) == (CpuCore {
                change_of_flow: true,
                pc: add32(add32(old(self).ppc as int, 2) as int, disp as int),
                ..*old(self)
            }),
            !spec_fpu_condition(old(self).fpsr, condition) ==> *final(self) == *old(self),
    {
        if fpu_condition(self.fpsr, condition) {
            self.change_of_flow = true;
            let base_pc = self.ppc.wrapping_add(2);
            self.pc = if disp >= 0 {
                base_pc.wrapping_add(disp as u32)
            } else {
                base_pc.wrapping_sub((-(disp as i64)) as u32)
            };
        }
        FBCC_CYCLES
    }

    /// The effective address of an FPU memory operand.
    fn get_fpu_ea_address<B: AddressBus>(&mut self, bus: &mut B, ea_mode: u8, ea_reg: usize) -> (r: u32)
        requires
            ea_reg < 8,
        ensures
            spec_fpu_ea(*old(self), *final(self), ea_mode, ea_reg, r),
            spec_fpu_ea_bus(*old(self), *old(bus), *final(self), *final(bus), ea_mode, ea_reg, r),
    {
        if ea_mode == 2 || ea_mode == 3 || ea_mode == 4 {
            self.a(ea_reg)
        } else if ea_mode == 5 {
            let w = self.read_imm_16(bus);
            let r = self.a(ea_reg).wrapping_add(sign_extend_word(w));
            assert(spec_imm_read(*old(self), *self, w as int, 2));
            proof {
                if self.pc != old(self).pc {
                    assert(old(bus).word_read(old(self).pc & old(self).address_mask, *bus, w));
                }
            }
            r
        } else if ea_mode == 7 && ea_reg == 0 {
            let w = self.read_imm_16(bus);
            assert(spec_imm_read(*old(self), *self, w as int, 2));
            proof {
                if self.pc != old(self).pc {
                    assert(old(bus).word_read(old(self).pc & old(self).address_mask, *bus, w));
                }
            }
            sign_extend_word(w)
        } else if ea_mode == 7 && ea_reg == 1 {
            let v = self.read_imm_32(bus);
            assert(spec_imm_read(*old(self), *self, v as int, 4));
            v
        } else if ea_mode == 7 && ea_reg == 2 {
            let pc = self.pc;
            let w = self.read_imm_16(bus);
            assert(spec_imm_read(*old(self), *self, w as int, 2));
            proof {
                if self.pc != old(self).pc {
                    assert(old(bus).word_read(old(self).pc & old(self).address_mask, *bus, w));
                }
            }
            pc.wrapping_add(sign_extend_word(w))
        } else {
            0
        }
    }

    /// FScc: set the destination byte to `0xFF` when the condition holds,
    /// else to 0. A data register keeps its upper 24 bits; a memory byte is
    /// written through the bus.
    pub fn exec_fscc<B: AddressBus>(&mut self, bus: &mut B, ea_mode: u8, ea_reg: usize, condition: u8) -> (r: i32)
        requires
            ea_reg < 8,
        ensures
            r == FSCC_CYCLES,
            ea_mode == 0 ==> *final(self) == (CpuCore {
                dar: final(self).dar,
                ..*old(self)
            }) && final(self).dar@ == old(self).dar@.update(
                ea_reg as int,
                (old(self).dar@[ea_reg as int] & 0xFFFF_FF00) | (if spec_fpu_condition(old(self).fpsr, condition) {
                    0xFFu32
                } else {
                    0u32
                }),
            ),
            ea_mode != 0 ==> exists|mid: CpuCore, addr: u32| #![auto]
                spec_fpu_ea(*old(self), mid, ea_mode, ea_reg, addr) && spec_only_faults(mid, *final(self)),
            ea_mode != 0 ==> exists|mid: CpuCore, addr: u32, bm: B|
                #![trigger spec_byte_write(mid, bm, addr, spec_fscc_byte(old(self).fpsr, condition), *final(self), *final(bus))]
                spec_fpu_ea(*old(self), mid, ea_mode, ea_reg, addr) && spec_fpu_ea_bus(
                    *old(self),
                    *old(bus),
                    mid,
                    bm,
                    ea_mode,
                    ea_reg,
                    addr,
                ) && spec_byte_write(
                    mid,
                    bm,
                    addr,
                    spec_fscc_byte(old(self).fpsr, condition),
                    *final(self),
                    *final(bus),
                ) && ((ea_mode == 2 || ea_mode == 3 || ea_mode == 4) ==> bm == *old(bus)),
    {
        let value: u8 = if fpu_condition(self.fpsr, condition) { 0xFF } else { 0x00 };
        assert(value == spec_fscc_byte(old(self).fpsr, condition));
        if ea_mode == 0 {
            let d = self.d(ea_reg);
            self.set_d(ea_reg, (d & 0xFFFF_FF00) | value as u32);
        } else {
            let addr = self.get_fpu_ea_address(bus, ea_mode, ea_reg);
            let ghost mid = *self;
            let ghost bm = *bus;
            self.write_byte_mem(bus, addr, value);
            assert(spec_fpu_ea(*old(self), mid, ea_mode, ea_reg, addr));
            assert(spec_byte_write(mid, bm, addr, value, *self, *bus));
        }
        FSCC_CYCLES
    }

    /// FPU op1 (opcode pattern `0xF3xx`): FSAVE or FRESTORE; other
    /// operations return 0 so that the caller raises the line 1111 trap.
    pub fn exec_fpu_op1<B: AddressBus>(&mut self, bus: &mut B, opcode: u16) -> (r: i32)
        ensures
            ({
                let ea_mode = ((opcode / 8) % 8) as u8;
                let ea_reg = (opcode % 8) as usize;
                let op = (opcode / 64) % 4;
                if op == 0 {
                    spec_fsave_effect(*old(self), *final(self), ea_mode, ea_reg, r) && spec_fsave_traffic(
                        *old(self),
                        *final(self),
                        *old(bus),
                        *final(bus),
                        ea_mode,
                        ea_reg,
                    )
                } else if op == 1 {
                    spec_frestore_effect(*old(self), *final(self), ea_mode, ea_reg, r) && spec_frestore_traffic(
                        *old(self),
                        *final(self),
                        *old(bus),
                        *final(bus),
                        ea_mode,
                        ea_reg,
                    )
                } else {
                    r == 0 && *final(self) == *old(self) && *final(bus) == *old(bus)
                }
            }),
    {
        let ea_mode = ((opcode / 8) % 8) as u8;
        let ea_reg = (opcode % 8) as usize;
        let op = ((opcode / 64) % 4) as u8;
        if op == 0 {
            self.exec_fsave(bus, ea_mode, ea_reg)
        } else if op == 1 {
            self.exec_frestore(bus, ea_mode, ea_reg)
        } else {
            0
        }
    }

    #[verifier::rlimit(40)]
    #[verifier::spinoff_prover]
    fn exec_fsave<B: AddressBus>(&mut self, bus: &mut B, ea_mode: u8, ea_reg: usize) -> (r: i32)
        requires
            ea_reg < 8,
        ensures
            spec_fsave_effect(*old(self), *final(self), ea_mode, ea_reg, r),
            spec_fsave_traffic(*old(self), *final(self), *old(bus), *final(bus), ea_mode, ea_reg),
    {
        let ghost s0 = *self;
        let ghost a0 = s0.dar@[8 + ea_reg] as int;
        if ea_mode == 3 {
            let addr = self.a(ea_reg);
            self.set_a(ea_reg, addr.wrapping_add(4));
            if self.fpu_just_reset {
                proof {
                    assert(self.dar =~= spec_step_an(s0, ea_reg, 4).dar);
                    assert(*self == spec_step_an(s0, ea_reg, 4));
                }
                let ghost s1 = *self;
                let ghost b1 = *bus;
                self.write_long_mem(bus, addr, 0);
                proof {
                    lemma_single_write(s1, b1, addr, 0, *self, *bus);
                }
            } else {
                let a = self.a(ea_reg);
                self.set_a(ea_reg, a.wrapping_add(6 * 4));
                proof {
                    lemma_add32_twice(a0, 4, 24);
                    assert(self.dar =~= spec_step_an(s0, ea_reg, 28).dar);
                    assert(*self == spec_step_an(s0, ea_reg, 28));
                }
                perform_fsave(bus, self, addr, true);
            }
            FSAVE_CYCLES
        } else if ea_mode == 4 {
            let addr_hi = self.a(ea_reg).wrapping_sub(4);
            self.set_a(ea_reg, addr_hi);
            if self.fpu_just_reset {
                proof {
                    lemma_add32_twice(a0, -4, 0);
                    assert(self.dar =~= spec_step_an(s0, ea_reg, -4).dar);
                    assert(*self == spec_step_an(s0, ea_reg, -4));
                }
                let ghost s1 = *self;
                let ghost b1 = *bus;
                self.write_long_mem(bus, addr_hi, 0);
                proof {
                    assert(addr_hi == add32(a0, -4));
                    lemma_single_write(s1, b1, addr_hi, 0, *self, *bus);
                }
            } else {
                let a = self.a(ea_reg);
                self.set_a(ea_reg, a.wrapping_sub(6 * 4));
                proof {
                    lemma_add32_twice(a0, -4, -24);
                    assert(self.dar =~= spec_step_an(s0, ea_reg, -28).dar);
                    assert(*self == spec_step_an(s0, ea_reg, -28));
                    assert(addr_hi == add32(a0, -4));
                }
                perform_fsave(bus, self, addr_hi, false);
            }
            FSAVE_CYCLES
        } else {
            0
        }
    }

    fn exec_frestore<B: AddressBus>(&mut self, bus: &mut B, ea_mode: u8, ea_reg: usize) -> (r: i32)
        requires
            ea_reg < 8,
        ensures
            spec_frestore_effect(*old(self), *final(self), ea_mode, ea_reg, r),
            spec_frestore_traffic(*old(self), *final(self), *old(bus), *final(bus), ea_mode, ea_reg),
    {
        let ghost s0 = *self;
        if ea_mode == 2 {
            let addr = self.a(ea_reg);
            let header = self.read_long_mem(bus, addr);
            let ghost m = *self;
            if (header & 0xFF00_0000) == 0 {
                self.do_frestore_null();
            } else {
                self.fpu_just_reset = false;
            }
            assert(spec_only_faults(spec_restore_header(s0, header), *self));
            assert(*self == spec_restore_header(m, header));
            assert(spec_long_read(s0, *old(bus), addr, m, *bus, header));
            FSAVE_CYCLES
        } else if ea_mode == 3 {
            let addr = self.a(ea_reg);
            self.set_a(ea_reg, addr.wrapping_add(4));
            let ghost s1 = *self;
            proof {
                assert(s1.dar =~= spec_step_an(s0, ea_reg, 4).dar);
                assert(s1 == spec_step_an(s0, ea_reg, 4));
            }
            let header = self.read_long_mem(bus, addr);
            let ghost m = *self;
            if (header & 0xFF00_0000) == 0 {
                self.do_frestore_null();
            } else {
                self.fpu_just_reset = false;
                let kind = header & 0x00FF_0000;
                let extra: u32 = if kind == 0x0018_0000 {
                    6 * 4
                } else if kind == 0x0038_0000 {
                    14 * 4
                } else if kind == 0x00B4_0000 {
                    45 * 4
                } else {
                    0
                };
                let a = self.a(ea_reg);
                self.set_a(ea_reg, a.wrapping_add(extra));
                proof {
                    assert(extra == spec_frame_extra(header));
                    assert(self.dar =~= spec_restore_postinc(s1, ea_reg, header).dar);
                }
            }
            assert(spec_only_faults(spec_restore_postinc(s1, ea_reg, header), *self));
            proof {
                if (header & 0xFF00_0000) != 0 {
                    assert(self.dar =~= spec_restore_postinc(m, ea_reg, header).dar);
                }
            }
            assert(*self == spec_restore_postinc(m, ea_reg, header));
            assert(spec_long_read(s1, *old(bus), addr, m, *bus, header));
            FSAVE_CYCLES
        } else {
            0
        }
    }

    fn do_frestore_null(&mut self)
        ensures
            *final(self) == spec_null_restore(*old(self)),
    {
        self.fpcr = 0;
        self.fpsr = 0;
        self.fpiar = 0;
        self.fpr = [FPR_RESET_NAN; 8];
        self.fpu_just_reset = true;
        proof {
            assert(self.fpr@ =~= vstd::array::spec_array_fill_for_copy_type::<u64, 8>(FPR_RESET_NAN)@);
        }
    }
}

/// State after FRESTORE `(An)+` read header `header` (An already past it):
/// a null frame resets the FPU; any other leaves the reset state and skips
/// the rest of its frame.
pub open spec fn spec_restore_postinc(s: CpuCore, ea_reg: usize, header: u32) -> CpuCore {
    if header & 0xFF00_0000 == 0 {
        spec_null_restore(s)
    } else {
        CpuCore {
            fpu_just_reset: false,
            dar: spec_array_update(s.dar, 8 + ea_reg as int, add32(s.dar@[8 + ea_reg] as int, spec_frame_extra(header) as int)),
            ..s
        }
    }
}

/// What FSAVE does: `(An)+` and `-(An)` store a null frame (one longword) in
/// the reset state, else an idle frame (seven longwords), moving An past
/// it; other modes are not handled (0 cycles, no change).
pub open spec fn spec_fsave_effect(old: CpuCore, new: CpuCore, ea_mode: u8, ea_reg: usize, r: i32) -> bool {
    let a = old.dar@[8 + ea_reg] as int;
    let size: int = if old.fpu_just_reset { 4 } else { 28 };
    if ea_mode == 3 {
        r == FSAVE_CYCLES && spec_only_faults(
            CpuCore { dar: spec_array_update(old.dar, 8 + ea_reg as int, add32(a, size)), ..old },
            new,
        )
    } else if ea_mode == 4 {
        r == FSAVE_CYCLES && spec_only_faults(
            CpuCore { dar: spec_array_update(old.dar, 8 + ea_reg as int, add32(a, -size)), ..old },
            new,
        )
    } else {
        r == 0 && new == old
    }
}

/// Moving a 32-bit address twice is moving it by the sum, modulo 2^32.
proof fn lemma_add32_twice(a: int, d1: int, d2: int)
    requires
        0 <= a < 0x1_0000_0000,
    ensures
        add32(add32(a, d1) as int, d2) == add32(a, d1 + d2),
        add32(a, 0) == a,
{
    let m: int = 0x1_0000_0000;
    vstd::arithmetic::div_mod::lemma_add_mod_noop_right(d2, a + d1, m);
    vstd::arithmetic::div_mod::lemma_mod_bound(a + d1, m);
    vstd::arithmetic::div_mod::lemma_small_mod(a as nat, m as nat);
}

/// The core with An moved by `delta` bytes.
pub open spec fn spec_step_an(s: CpuCore, ea_reg: usize, delta: int) -> CpuCore {
    CpuCore { dar: spec_array_update(s.dar, 8 + ea_reg as int, add32(s.dar@[8 + ea_reg] as int, delta)), ..s }
}

/// What FRESTORE does for the header longword it reads (not described
/// here: it comes from the bus): `(An)` and `(An)+` restore the frame,
/// `(An)+` moving An past it; other modes are not handled.
pub open spec fn spec_frestore_effect(old: CpuCore, new: CpuCore, ea_mode: u8, ea_reg: usize, r: i32) -> bool {
    let a = old.dar@[8 + ea_reg] as int;
    if ea_mode == 2 {
        r == FSAVE_CYCLES && exists|header: u32| #![auto] spec_only_faults(spec_restore_header(old, header), new)
    } else if ea_mode == 3 {
        r == FSAVE_CYCLES && exists|header: u32|
            spec_only_faults(#[trigger] spec_restore_postinc(spec_step_an(old, ea_reg, 4), ea_reg, header), new)
    } else {
        r == 0 && new == old
    }
}

/// Appending a write to a run of writes.
proof fn lemma_writes_via_append<B: AddressBus>(
    cs: Seq<CpuCore>,
    bs: Seq<B>,
    w: Seq<(u32, u32)>,
    addr: u32,
    value: u32,
    c2: CpuCore,
    b2: B,
)
    requires
        spec_long_writes_via(cs, bs, w),
        spec_long_write(cs.last(), bs.last(), addr, value, c2, b2),
    ensures
        spec_long_writes_via(cs.push(c2), bs.push(b2), w.push((addr, value))),
{
    let w1 = w.push((addr, value));
    assert forall|i: int| 0 <= i < w1.len() implies #[trigger] spec_long_write(
        cs.push(c2)[i],
        bs.push(b2)[i],
        w1[i].0,
        w1[i].1,
        cs.push(c2)[i + 1],
        bs.push(b2)[i + 1],
    ) by {
        if i < w.len() {
            assert(spec_long_write(cs[i], bs[i], w[i].0, w[i].1, cs[i + 1], bs[i + 1]));
        }
    }
}

/// Extending a run of writes by the next one.
proof fn lemma_writes_via_push<B: AddressBus>(
    cs: Seq<CpuCore>,
    bs: Seq<B>,
    w: Seq<(u32, u32)>,
    k: int,
    c2: CpuCore,
    b2: B,
)
    requires
        0 <= k < w.len(),
        spec_long_writes_via(cs, bs, w.take(k)),
        spec_long_write(cs.last(), bs.last(), w[k].0, w[k].1, c2, b2),
    ensures
        spec_long_writes_via(cs.push(c2), bs.push(b2), w.take(k + 1)),
{
    let w1 = w.take(k + 1);
    assert forall|i: int| 0 <= i < w1.len() implies #[trigger] spec_long_write(
        cs.push(c2)[i],
        bs.push(b2)[i],
        w1[i].0,
        w1[i].1,
        cs.push(c2)[i + 1],
        bs.push(b2)[i + 1],
    ) by {
        if i < k {
            assert(w.take(k)[i] == w1[i]);
            assert(spec_long_write(cs[i], bs[i], w.take(k)[i].0, w.take(k)[i].1, cs[i + 1], bs[i + 1]));
        }
    }
}

/// The bus traffic of FSAVE: in the reset state a null frame (one zero
/// longword) is written, else an idle frame; `(An)+` writes upwards from
/// An, `-(An)` downwards from just below it; each write is made by the core
/// with An already moved past the frame. Other modes do not touch the bus.
pub open spec fn spec_fsave_traffic<B: AddressBus>(old: CpuCore, new: CpuCore, ob: B, nb: B, ea_mode: u8, ea_reg: usize) -> bool {
    let a = old.dar@[8 + ea_reg] as int;
    let reset = old.fpu_just_reset;
    if ea_mode == 3 {
        let s1 = spec_step_an(old, ea_reg, if reset { 4 } else { 28 });
        if reset {
            spec_long_writes(s1, ob, seq![(a as u32, 0u32)], new, nb)
        } else {
            spec_long_writes(s1, ob, spec_fsave_frame(a as u32, true), new, nb)
        }
    } else if ea_mode == 4 {
        let s1 = spec_step_an(old, ea_reg, if reset { -4 } else { -28 });
        let hi = add32(a, -4);
        if reset {
            spec_long_writes(s1, ob, seq![(hi, 0u32)], new, nb)
        } else {
            spec_long_writes(s1, ob, spec_fsave_frame(hi, false), new, nb)
        }
    } else {
        nb == ob
    }
}

/// The bus traffic of FRESTORE: the header longword is read at An (`(An)`
/// and `(An)+`, the latter with An already moved past it) and the frame is
/// restored from the header that came back. Other modes do not touch the
/// bus.
pub open spec fn spec_frestore_traffic<B: AddressBus>(old: CpuCore, new: CpuCore, ob: B, nb: B, ea_mode: u8, ea_reg: usize) -> bool {
    let a = old.dar@[8 + ea_reg];
    if ea_mode == 2 {
        exists|m: CpuCore, header: u32|
            #[trigger] spec_long_read(old, ob, a, m, nb, header) && new == spec_restore_header(m, header)
    } else if ea_mode == 3 {
        exists|m: CpuCore, header: u32|
            #[trigger] spec_long_read(spec_step_an(old, ea_reg, 4), ob, a, m, nb, header) && new == spec_restore_postinc(
                m,
                ea_reg,
                header,
            )
    } else {
        nb == ob
    }
}

/// A single long write is a run of one write.
proof fn lemma_single_write<B: AddressBus>(c: CpuCore, b: B, addr: u32, value: u32, c2: CpuCore, b2: B)
    requires
        spec_long_write(c, b, addr, value, c2, b2),
    ensures
        spec_long_writes(c, b, seq![(addr, value)], c2, b2),
{
    let e: Seq<(u32, u32)> = seq![];
    assert(spec_long_writes_via(seq![c], seq![b], e));
    lemma_writes_via_append(seq![c], seq![b], e, addr, value, c2, b2);
    assert(e.push((addr, value)) =~= seq![(addr, value)]);
    assert(seq![c].push(c2)[0] == c);
    assert(spec_long_writes_via(seq![c].push(c2), seq![b].push(b2), seq![(addr, value)]));
}

/// Store a 68881-style idle state frame (format `$1F18`, seven longwords)
/// at `addr`: upwards from it when `inc`, else downwards from it. Each
/// longword goes to the bus in turn; a fault on one does not stop the next.
#[verifier::rlimit(80)]
#[verifier::spinoff_prover]
fn perform_fsave<B: AddressBus>(bus: &mut B, cpu: &mut CpuCore, addr: u32, inc: bool)
    ensures
        spec_only_faults(*old(cpu), *final(cpu)),
        spec_long_writes(*old(cpu), *old(bus), spec_fsave_frame(addr, inc), *final(cpu), *final(bus)),
{
    let ghost w = spec_fsave_frame(addr, inc);
    let ghost mut cs: Seq<CpuCore> = seq![*cpu];
    let ghost mut bs: Seq<B> = seq![*bus];
    proof {
        assert(w.take(0).len() == 0);
    }
    if inc {
        cpu.write_long_mem(bus, addr, 0x1F18_0000);
        proof {
            assert(w[0] == (addr, 0x1F18_0000u32));
            lemma_writes_via_push(cs, bs, w, 0, *cpu, *bus);
            cs = cs.push(*cpu);
            bs = bs.push(*bus);
        }
        cpu.write_long_mem(bus, addr.wrapping_add(4), 0);
        proof {
            assert(w[1] == (add32(addr as int, 4), 0u32));
            assert(addr.wrapping_add(4) == add32(addr as int, 4));
            lemma_writes_via_push(cs, bs, w, 1, *cpu, *bus);
            cs = cs.push(*cpu);
            bs = bs.push(*bus);
        }
        cpu.write_long_mem(bus, addr.wrapping_add(8), 0);
        proof {
            assert(w[2] == (add32(addr as int, 8), 0u32));
            assert(addr.wrapping_add(8) == add32(addr as int, 8));
            lemma_writes_via_push(cs, bs, w, 2, *cpu, *bus);
            cs = cs.push(*cpu);
            bs = bs.push(*bus);
        }
        cpu.write_long_mem(bus, addr.wrapping_add(12), 0);
        proof {
            assert(w[3] == (add32(addr as int, 12), 0u32));
            assert(addr.wrapping_add(12) == add32(addr as int, 12));
            lemma_writes_via_push(cs, bs, w, 3, *cpu, *bus);
            cs = cs.push(*cpu);
            bs = bs.push(*bus);
        }
        cpu.write_long_mem(bus, addr.wrapping_add(16), 0);
        proof {
            assert(w[4] == (add32(addr as int, 16), 0u32));
            assert(addr.wrapping_add(16) == add32(addr as int, 16));
            lemma_writes_via_push(cs, bs, w, 4, *cpu, *bus);
            cs = cs.push(*cpu);
            bs = bs.push(*bus);
        }
        cpu.write_long_mem(bus, addr.wrapping_add(20), 0);
        proof {
            assert(w[5] == (add32(addr as int, 20), 0u32));
            assert(addr.wrapping_add(20) == add32(addr as int, 20));
            lemma_writes_via_push(cs, bs, w, 5, *cpu, *bus);
            cs = cs.push(*cpu);
            bs = bs.push(*bus);
        }
        cpu.write_long_mem(bus, addr.wrapping_add(24), 0x7000_0000);
        proof {
            assert(w[6] == (add32(addr as int, 24), 0x7000_0000u32));
            assert(addr.wrapping_add(24) == add32(addr as int, 24));
            lemma_writes_via_push(cs, bs, w, 6, *cpu, *bus);
            cs = cs.push(*cpu);
            bs = bs.push(*bus);
        }
    } else {
        cpu.write_long_mem(bus, addr, 0x7000_0000);
        proof {
            assert(w[0] == (addr, 0x7000_0000u32));
            lemma_writes_via_push(cs, bs, w, 0, *cpu, *bus);
            cs = cs.push(*cpu);
            bs = bs.push(*bus);
        }
        cpu.write_long_mem(bus, addr.wrapping_sub(4), 0);
        proof {
            assert(w[1] == (add32(addr as int, -4), 0u32));
            assert(addr.wrapping_sub(4) == add32(addr as int, -4));
            lemma_writes_via_push(cs, bs, w, 1, *cpu, *bus);
            cs = cs.push(*cpu);
            bs = bs.push(*bus);
        }
        cpu.write_long_mem(bus, addr.wrapping_sub(8), 0);
        proof {
            assert(w[2] == (add32(addr as int, -8), 0u32));
            assert(addr.wrapping_sub(8) == add32(addr as int, -8));
            lemma_writes_via_push(cs, bs, w, 2, *cpu, *bus);
            cs = cs.push(*cpu);
            bs = bs.push(*bus);
        }
        cpu.write_long_mem(bus, addr.wrapping_sub(12), 0);
        proof {
            assert(w[3] == (add32(addr as int, -12), 0u32));
            assert(addr.wrapping_sub(12) == add32(addr as int, -12));
            lemma_writes_via_push(cs, bs, w, 3, *cpu, *bus);
            cs = cs.push(*cpu);
            bs = bs.push(*bus);
        }
        cpu.write_long_mem(bus, addr.wrapping_sub(16), 0);
        proof {
            assert(w[4] == (add32(addr as int, -16), 0u32));
            assert(addr.wrapping_sub(16) == add32(addr as int, -16));
            lemma_writes_via_push(cs, bs, w, 4, *cpu, *bus);
            cs = cs.push(*cpu);
            bs = bs.push(*bus);
        }
        cpu.write_long_mem(bus, addr.wrapping_sub(20), 0);
        proof {
            assert(w[5] == (add32(addr as int, -20), 0u32));
            assert(addr.wrapping_sub(20) == add32(addr as int, -20));
            lemma_writes_via_push(cs, bs, w, 5, *cpu, *bus);
            cs = cs.push(*cpu);
            bs = bs.push(*bus);
        }
        cpu.write_long_mem(bus, addr.wrapping_sub(24), 0x1F18_0000);
        proof {
            assert(w[6] == (add32(addr as int, -24), 0x1F18_0000u32));
            assert(addr.wrapping_sub(24) == add32(addr as int, -24));
            lemma_writes_via_push(cs, bs, w, 6, *cpu, *bus);
            cs = cs.push(*cpu);
            bs = bs.push(*bus);
        }
    }
    proof {
        assert(w.take(7) =~= w);
        assert(spec_long_writes_via(cs, bs, w));
    }
}

/// Where FPU format 0 (long integer) source operands come from:
/// `Dn`, `(An)`, `(An)+`, `-(An)`, `(d16,An)`, `(xxx).W`, `(xxx).L`,
/// `(d16,PC)` and `#imm`; other modes are not handled.
pub open spec fn spec_long_source_mode(ea_mode: u8, ea_reg: usize) -> bool {
    ea_mode == 0 || ea_mode == 2 || ea_mode == 3 || ea_mode == 4 || ea_mode == 5 || (ea_mode == 7 && (ea_reg == 0
        || ea_reg == 1 || ea_reg == 2 || ea_reg == 4))
}

impl CpuCore {
    /// Read the 32-bit integer source operand of an FPU instruction (format
    /// 0). A data register is read exactly; `(An)+` and `-(An)` move An by
    /// 4; memory operands come from the bus; unhandled modes give nothing.
    pub fn exec_fpu_read_ea_long<B: AddressBus>(&mut self, bus: &mut B, opcode: u16) -> (r: Option<i32>)
        ensures
            ({
                let ea_mode = ((opcode % 64) / 8) as u8;
                let ea_reg = (opcode % 8) as usize;
                let a = old(self).dar@[8 + ea_reg] as int;
                if !spec_long_source_mode(ea_mode, ea_reg) {
                    r is None && *final(self) == *old(self)
                } else if ea_mode == 0 {
                    r == Some(old(self).dar@[ea_reg as int] as i32) && *final(self) == *old(self)
                } else if ea_mode == 3 {
                    r is Some && spec_only_faults(spec_step_an(*old(self), ea_reg, 4), *final(self))
                } else if ea_mode == 4 {
                    r is Some && spec_only_faults(spec_step_an(*old(self), ea_reg, -4), *final(self))
                } else if ea_mode == 2 {
                    r is Some && spec_only_faults(*old(self), *final(self))
                } else {
                    r is Some && final(self).dar == old(self).dar && final(self).fpr == old(self).fpr
                        && final(self).fpsr == old(self).fpsr && final(self).fpcr == old(self).fpcr
                }
            }),
            ({
                let ea_mode = ((opcode % 64) / 8) as u8;
                let ea_reg = (opcode % 8) as usize;
                let a = old(self).dar@[8 + ea_reg];
                &&& ea_mode == 2 ==> exists|v: u32|
                    #[trigger] spec_long_read(*old(self), *old(bus), a, *final(self), *final(bus), v) && r == Some(
                        v as i32,
                    )
                &&& ea_mode == 3 ==> exists|v: u32|
                    #[trigger] spec_long_read(
                        spec_step_an(*old(self), ea_reg, 4),
                        *old(bus),
                        a,
                        *final(self),
                        *final(bus),
                        v,
                    ) && r == Some(v as i32)
                &&& ea_mode == 4 ==> exists|v: u32|
                    #[trigger] spec_long_read(
                        spec_step_an(*old(self), ea_reg, -4),
                        *old(bus),
                        add32(a as int, -4),
                        *final(self),
                        *final(bus),
                        v,
                    ) && r == Some(v as i32)
                &&& (ea_mode == 5 || (ea_mode == 7 && ea_reg <= 2)) ==> exists|mid: CpuCore, addr: u32, bm: B, v: u32|
                    #![trigger spec_long_read(mid, bm, addr, *final(self), *final(bus), v)]
                    spec_fpu_ea(*old(self), mid, ea_mode, ea_reg, addr) && spec_fpu_ea_bus(
                        *old(self),
                        *old(bus),
                        mid,
                        bm,
                        ea_mode,
                        ea_reg,
                        addr,
                    ) && spec_long_read(
                        mid,
                        bm,
                        addr,
                        *final(self),
                        *final(bus),
                        v,
                    ) && r == Some(v as i32)
                &&& (ea_mode == 7 && ea_reg == 4) ==> exists|v: u32|
                    #[trigger] spec_imm_read(*old(self), *final(self), v as int, 4) && r == Some(v as i32) && (final(self).pc != old(self).pc ==> old(bus).long_read(
                        old(self).pc & old(self).address_mask,
                        *final(bus),
                        v,
                    ))
            }),
    {
        let ea_mode = ((opcode % 64) / 8) as u8;
        let ea_reg = (opcode % 8) as usize;
        let ghost s0 = *self;
        if ea_mode == 0 {
            Some(self.d(ea_reg) as i32)
        } else if ea_mode == 2 {
            let a = self.a(ea_reg);
            let v = self.read_long_mem(bus, a);
            assert(spec_long_read(s0, *old(bus), a, *self, *bus, v));
            Some(v as i32)
        } else if ea_mode == 3 {
            let a = self.a(ea_reg);
            self.set_a(ea_reg, a.wrapping_add(4));
            proof {
                assert(self.dar =~= spec_step_an(s0, ea_reg, 4).dar);
            }
            let v = self.read_long_mem(bus, a);
            assert(spec_long_read(spec_step_an(s0, ea_reg, 4), *old(bus), s0.dar@[8 + ea_reg], *self, *bus, v));
            Some(v as i32)
        } else if ea_mode == 4 {
            let a = self.a(ea_reg).wrapping_sub(4);
            self.set_a(ea_reg, a);
            proof {
                lemma_add32_twice(s0.dar@[8 + ea_reg] as int, -4, 0);
                assert(self.dar =~= spec_step_an(s0, ea_reg, -4).dar);
            }
            let v = self.read_long_mem(bus, a);
            assert(spec_long_read(spec_step_an(s0, ea_reg, -4), *old(bus), add32(s0.dar@[8 + ea_reg] as int, -4), *self, *bus, v));
            Some(v as i32)
        } else if ea_mode == 5 || (ea_mode == 7 && (ea_reg == 0 || ea_reg == 1 || ea_reg == 2)) {
            let addr = self.get_fpu_ea_address(bus, ea_mode, ea_reg);
            let ghost mid = *self;
            let ghost bm = *bus;
            let v = self.read_long_mem(bus, addr);
            assert(spec_long_read(mid, bm, addr, *self, *bus, v));
            Some(v as i32)
        } else if ea_mode == 7 && ea_reg == 4 {
            let v = self.read_imm_32(bus);
            assert(spec_imm_read(s0, *self, v as int, 4));
            Some(v as i32)
        } else {
            None
        }
    }
}

/// Write a 64-bit value big-endian as two longwords, high first: the high
/// half at `addr`, the low half at `addr + 4`. A fault on the first write
/// does not stop the second.
pub fn write_u64_be<B: AddressBus>(cpu: &mut CpuCore, bus: &mut B, addr: u32, value: u64)
    ensures
        spec_only_faults(*old(cpu), *final(cpu)),
        spec_long_writes(
            *old(cpu),
            *old(bus),
            seq![(addr, (value / 0x1_0000_0000) as u32), (add32(addr as int, 4), (value % 0x1_0000_0000) as u32)],
            *final(cpu),
            *final(bus),
        ),
{
    let ghost w = seq![(addr, (value / 0x1_0000_0000) as u32), (add32(addr as int, 4), (value % 0x1_0000_0000) as u32)];
    let ghost mut cs: Seq<CpuCore> = seq![*cpu];
    let ghost mut bs: Seq<B> = seq![*bus];
    proof {
        assert(w.take(0).len() == 0);
    }
    let hi = (value / 0x1_0000_0000) as u32;
    let lo = (value % 0x1_0000_0000) as u32;
    cpu.write_long_mem(bus, addr, hi);
    proof {
        lemma_writes_via_push(cs, bs, w, 0, *cpu, *bus);
        cs = cs.push(*cpu);
        bs = bs.push(*bus);
    }
    cpu.write_long_mem(bus, addr.wrapping_add(4), lo);
    proof {
        assert(addr.wrapping_add(4) == add32(addr as int, 4));
        lemma_writes_via_push(cs, bs, w, 1, *cpu, *bus);
        cs = cs.push(*cpu);
        bs = bs.push(*bus);
        assert(w.take(2) =~= w);
        assert(spec_long_writes_via(cs, bs, w));
    }
}

/// Read a 64-bit value stored big-endian as two longwords, high first: the
/// high half from `addr`, the low half from `addr + 4`. A fault on the first
/// read does not stop the second; a faulting read gives 0.
pub fn read_u64_be<B: AddressBus>(cpu: &mut CpuCore, bus: &mut B, addr: u32) -> (r: u64)
    ensures
        spec_only_faults(*old(cpu), *final(cpu)),
        exists|cm: CpuCore, bm: B, hi: u32, lo: u32|
            #![trigger spec_long_read(*old(cpu), *old(bus), addr, cm, bm, hi), spec_long_read(cm, bm, add32(addr as int, 4), *final(cpu), *final(bus), lo)]
            spec_long_read(*old(cpu), *old(bus), addr, cm, bm, hi) && spec_long_read(
                cm,
                bm,
                add32(addr as int, 4),
                *final(cpu),
                *final(bus),
                lo,
            ) && r == hi as int * 0x1_0000_0000 + lo as int,
{
    let ghost c0 = *cpu;
    let ghost b0 = *bus;
    let hi32 = cpu.read_long_mem(bus, addr);
    let ghost cm = *cpu;
    let ghost bm = *bus;
    let lo32 = cpu.read_long_mem(bus, addr.wrapping_add(4));
    proof {
        assert(addr.wrapping_add(4) == add32(addr as int, 4));
    }
    let hi = hi32 as u64;
    let lo = lo32 as u64;
    let r = hi * 0x1_0000_0000 + lo;
    proof {
        assert(spec_long_read(c0, b0, addr, cm, bm, hi32));
        assert(spec_long_read(cm, bm, add32(addr as int, 4), *cpu, *bus, lo32));
    }
    r
}

/// A 64-bit read at `addr` as [`read_u64_be`] does it: two longword reads,
/// the high half from `addr`, the low half from `addr + 4`.
pub open spec fn spec_quad_read<B: AddressBus>(c: CpuCore, b: B, addr: u32, c2: CpuCore, b2: B, r: u64) -> bool {
    exists|cm: CpuCore, bm: B, hi: u32, lo: u32|
        #![trigger spec_long_read(c, b, addr, cm, bm, hi), spec_long_read(cm, bm, add32(addr as int, 4), c2, b2, lo)]
        spec_long_read(c, b, addr, cm, bm, hi) && spec_long_read(cm, bm, add32(addr as int, 4), c2, b2, lo) && r
            == hi as int * 0x1_0000_0000 + lo as int
}

/// Where FPU format 5 (double precision) source operands come from:
/// `(An)`, `(An)+`, `-(An)`, `(d16,An)`, `(xxx).W`, `(xxx).L`, `(d16,PC)`
/// and `#imm`; other modes are not handled.
pub open spec fn spec_double_source_mode(ea_mode: u8, ea_reg: usize) -> bool {
    ea_mode == 2 || ea_mode == 3 || ea_mode == 4 || ea_mode == 5 || (ea_mode == 7 && (ea_reg == 0 || ea_reg == 1
        || ea_reg == 2 || ea_reg == 4))
}

impl CpuCore {
    /// Read the bit pattern of the double-precision source operand of an FPU
    /// instruction (format 5), high longword first. `(An)+` and `-(An)` move
    /// An by 8; an immediate is two extension longwords; unhandled modes give
    /// nothing.
    #[verifier::rlimit(40)]
    #[verifier::spinoff_prover]
    pub fn exec_fpu_read_ea_double_bits<B: AddressBus>(&mut self, bus: &mut B, opcode: u16) -> (r: Option<u64>)
        ensures
            ({
                let ea_mode = ((opcode % 64) / 8) as u8;
                let ea_reg = (opcode % 8) as usize;
                let a = old(self).dar@[8 + ea_reg];
                if !spec_double_source_mode(ea_mode, ea_reg) {
                    r is None && *final(self) == *old(self) && *final(bus) == *old(bus)
                } else if ea_mode == 2 {
                    r is Some && spec_quad_read(*old(self), *old(bus), a, *final(self), *final(bus), r->0)
                } else if ea_mode == 3 {
                    r is Some && spec_quad_read(
                        spec_step_an(*old(self), ea_reg, 8),
                        *old(bus),
                        a,
                        *final(self),
                        *final(bus),
                        r->0,
                    )
                } else if ea_mode == 4 {
                    r is Some && spec_quad_read(
                        spec_step_an(*old(self), ea_reg, -8),
                        *old(bus),
                        add32(a as int, -8),
                        *final(self),
                        *final(bus),
                        r->0,
                    )
                } else if ea_mode == 7 && ea_reg == 4 {
                    r is Some && exists|mid: CpuCore, bm: B, hi: u32, lo: u32|
                        #![trigger spec_imm_read(*old(self), mid, hi as int, 4), bm.long_read(mid.pc & mid.address_mask, *final(bus), lo)]
                        spec_imm_read(*old(self), mid, hi as int, 4) && (mid.pc != old(self).pc ==> old(bus).long_read(
                            old(self).pc & old(self).address_mask,
                            bm,
                            hi,
                        )) && spec_imm_read(mid, *final(self), lo as int, 4) && (final(self).pc != mid.pc
                            ==> bm.long_read(mid.pc & mid.address_mask, *final(bus), lo)) && r->0 == hi as int
                            * 0x1_0000_0000 + lo as int
                } else {
                    r is Some && exists|mid: CpuCore, addr: u32, bm: B|
                        #![trigger spec_quad_read(mid, bm, addr, *final(self), *final(bus), r->0)]
                        spec_fpu_ea(*old(self), mid, ea_mode, ea_reg, addr) && spec_fpu_ea_bus(
                            *old(self),
                            *old(bus),
                            mid,
                            bm,
                            ea_mode,
                            ea_reg,
                            addr,
                        ) && spec_quad_read(
                            mid,
                            bm,
                            addr,
                            *final(self),
                            *final(bus),
                            r->0,
                        )
                }
            }),
    {
        let ea_mode = ((opcode % 64) / 8) as u8;
        let ea_reg = (opcode % 8) as usize;
        let ghost s0 = *self;
        if ea_mode == 2 {
            let a = self.a(ea_reg);
            let v = read_u64_be(self, bus, a);
            assert(spec_quad_read(s0, *old(bus), a, *self, *bus, v));
            Some(v)
        } else if ea_mode == 3 {
            let a = self.a(ea_reg);
            self.set_a(ea_reg, a.wrapping_add(8));
            proof {
                assert(self.dar =~= spec_step_an(s0, ea_reg, 8).dar);
            }
            let ghost c1 = *self;
            let v = read_u64_be(self, bus, a);
            assert(spec_quad_read(c1, *old(bus), a, *self, *bus, v));
            Some(v)
        } else if ea_mode == 4 {
            let a = self.a(ea_reg).wrapping_sub(8);
            self.set_a(ea_reg, a);
            proof {
                lemma_add32_twice(s0.dar@[8 + ea_reg] as int, -8, 0);
                assert(self.dar =~= spec_step_an(s0, ea_reg, -8).dar);
            }
            let ghost c1 = *self;
            let v = read_u64_be(self, bus, a);
            assert(spec_quad_read(c1, *old(bus), a, *self, *bus, v));
            Some(v)
        } else if ea_mode == 5 || (ea_mode == 7 && (ea_reg == 0 || ea_reg == 1 || ea_reg == 2)) {
            let addr = self.get_fpu_ea_address(bus, ea_mode, ea_reg);
            let ghost mid = *self;
            let ghost bm = *bus;
            let v = read_u64_be(self, bus, addr);
            let res = Some(v);
            assert(spec_quad_read(mid, bm, addr, *self, *bus, res->0));
            res
        } else if ea_mode == 7 && ea_reg == 4 {
            let hi = self.read_imm_32(bus);
            let ghost mid = *self;
            let ghost bm = *bus;
            let lo = self.read_imm_32(bus);
            let v = (hi as u64) * 0x1_0000_0000 + (lo as u64);
            proof {
                assert(spec_imm_read(s0, mid, hi as int, 4));
                assert(spec_imm_read(mid, *self, lo as int, 4));
                if !bm.long_read(mid.pc & mid.address_mask, *bus, lo) {
                    assert(self.pc == mid.pc);
                }
            }
            Some(v)
        } else {
            None
        }
    }
}

/// One word read by the core at `addr`, as a longword read is (see
/// [`spec_long_read`]).
pub open spec fn spec_word_read<B: AddressBus>(c: CpuCore, b: B, addr: u32, c2: CpuCore, b2: B, r: u16) -> bool {
    let a = addr & c.address_mask;
    if addr % 2 != 0 && !spec_is_020_plus(c.cpu_type) {
        r == 0 && b2 == b && c2 == spec_fault(
            c,
            CpuException::AddressError { address: addr, write: false, instruction: false },
        )
    } else {
        (c2 == c && b.word_read(a, b2, r)) || (r == 0 && c2 == spec_fault(
            c,
            CpuException::BusError { address: a, write: false, instruction: false },
        ))
    }
}

/// A 96-bit extended-precision operand read at `addr`: the sign and
/// exponent word at `addr`, then, past the padding word, the 64-bit
/// mantissa at `addr + 4`.
pub open spec fn spec_extended_read<B: AddressBus>(c: CpuCore, b: B, addr: u32, c2: CpuCore, b2: B, r: (u16, u64)) -> bool {
    exists|cm: CpuCore, bm: B|
        #![trigger spec_word_read(c, b, addr, cm, bm, r.0)]
        spec_word_read(c, b, addr, cm, bm, r.0) && spec_quad_read(cm, bm, add32(addr as int, 4), c2, b2, r.1)
}

/// Where FPU format 2 (extended precision) source operands come from:
/// `(An)`, `(An)+`, `-(An)`, `(d16,An)`, `(xxx).W`, `(xxx).L` and
/// `(d16,PC)`; other modes are not handled.
pub open spec fn spec_extended_source_mode(ea_mode: u8, ea_reg: usize) -> bool {
    ea_mode == 2 || ea_mode == 3 || ea_mode == 4 || ea_mode == 5 || (ea_mode == 7 && ea_reg <= 2)
}

/// Bit pattern of double precision positive infinity.
pub const DOUBLE_INFINITY: u64 = 0x7FF0_0000_0000_0000;

/// Bit pattern of double precision negative infinity.
pub const DOUBLE_NEG_INFINITY: u64 = 0xFFF0_0000_0000_0000;

/// Bit pattern of the double precision quiet NaN.
pub const DOUBLE_NAN: u64 = 0x7FF8_0000_0000_0000;

/// The double-precision bit pattern for the extended-precision value with
/// sign and exponent word `exp_word` and mantissa `mantissa` (explicit
/// integer bit): signed zero stays signed zero; exponent 0x7FFF is an
/// infinity with a zero mantissa, else NaN; an exponent out of double range
/// gives an infinity above and +0 below; otherwise the exponent is rebiased
/// and the 52 fraction bits below the integer bit are kept.
pub open spec fn spec_extended_to_double_bits(exp_word: u16, mantissa: u64) -> u64 {
    let sign = exp_word / 0x8000;
    let exp = exp_word % 0x8000;
    let biased = exp - 16383 + 1023;
    if exp == 0 && mantissa == 0 {
        if sign != 0 { 0x8000_0000_0000_0000 } else { 0 }
    } else if exp == 0x7FFF {
        if mantissa != 0 {
            DOUBLE_NAN
        } else if sign != 0 {
            DOUBLE_NEG_INFINITY
        } else {
            DOUBLE_INFINITY
        }
    } else if biased >= 2047 {
        if sign != 0 { DOUBLE_NEG_INFINITY } else { DOUBLE_INFINITY }
    } else if biased <= 0 {
        0
    } else {
        (sign * 0x8000_0000_0000_0000 + biased * 0x10_0000_0000_0000 + (mantissa % 0x8000_0000_0000_0000) / 2048) as u64
    }
}

/// Convert an extended-precision value to the nearest double's bit pattern
/// as [`spec_extended_to_double_bits`] says (the fraction is truncated).
pub fn extended_to_double_bits(exp_word: u16, mantissa: u64) -> (r: u64)
    ensures
        r == spec_extended_to_double_bits(exp_word, mantissa),
{
    let sign: u64 = (exp_word / 0x8000) as u64;
    let exp: u16 = exp_word % 0x8000;
    if exp == 0 && mantissa == 0 {
        return if sign != 0 { 0x8000_0000_0000_0000 } else { 0 };
    }
    if exp == 0x7FFF {
        return if mantissa != 0 {
            DOUBLE_NAN
        } else if sign != 0 {
            DOUBLE_NEG_INFINITY
        } else {
            DOUBLE_INFINITY
        };
    }
    if exp as u32 + 1023 >= 2047 + 16383 {
        return if sign != 0 { DOUBLE_NEG_INFINITY } else { DOUBLE_INFINITY };
    }
    if exp as u32 + 1023 <= 16383 {
        return 0;
    }
    let biased: u64 = (exp as u64 + 1023) - 16383;
    let frac: u64 = (mantissa % 0x8000_0000_0000_0000) / 2048;
    assert(sign * 0x8000_0000_0000_0000 + biased * 0x10_0000_0000_0000 + frac < 0x1_0000_0000_0000_0000) by (nonlinear_arith)
        requires
            sign <= 1,
            biased < 2047,
            frac < 0x10_0000_0000_0000,
    ;
    sign * 0x8000_0000_0000_0000 + biased * 0x10_0000_0000_0000 + frac
}

impl CpuCore {
    fn read_word_mem<B: AddressBus>(&mut self, bus: &mut B, addr: u32) -> (r: u16)
        ensures
            spec_only_faults(*old(self), *final(self)),
            spec_word_read(*old(self), *old(bus), addr, *final(self), *final(bus), r),
    {
        if addr % 2 != 0 && !self.is_020_plus() {
            self.trigger_address_error(addr, false, false);
            return 0;
        }
        let a = self.address(addr);
        match bus.try_read_word(a) {
            Ok(v) => v,
            Err(_) => {
                self.trigger_bus_error(a, false, false);
                0
            },
        }
    }

    /// Read an extended-precision operand at `addr`: the sign and exponent
    /// word, then the mantissa past the padding word.
    fn read_extended_at<B: AddressBus>(&mut self, bus: &mut B, addr: u32) -> (r: (u16, u64))
        ensures
            spec_only_faults(*old(self), *final(self)),
            spec_extended_read(*old(self), *old(bus), addr, *final(self), *final(bus), r),
    {
        let e = self.read_word_mem(bus, addr);
        let ghost cm = *self;
        let ghost bm = *bus;
        let m = read_u64_be(self, bus, addr.wrapping_add(4));
        proof {
            assert(addr.wrapping_add(4) == add32(addr as int, 4));
            assert(spec_quad_read(cm, bm, add32(addr as int, 4), *self, *bus, m));
        }
        let res = (e, m);
        assert(spec_word_read(*old(self), *old(bus), addr, cm, bm, res.0));
        res
    }

    /// Read the sign and exponent word and the mantissa of the
    /// extended-precision source operand of an FPU instruction (format 2).
    /// `(An)+` and `-(An)` move An by 12; unhandled modes give nothing.
    #[verifier::rlimit(40)]
    #[verifier::spinoff_prover]
    pub fn exec_fpu_read_ea_extended_raw<B: AddressBus>(&mut self, bus: &mut B, opcode: u16) -> (r: Option<(u16, u64)>)
        ensures
            ({
                let ea_mode = ((opcode % 64) / 8) as u8;
                let ea_reg = (opcode % 8) as usize;
                let a = old(self).dar@[8 + ea_reg];
                if !spec_extended_source_mode(ea_mode, ea_reg) {
                    r is None && *final(self) == *old(self) && *final(bus) == *old(bus)
                } else if ea_mode == 2 {
                    r is Some && spec_extended_read(*old(self), *old(bus), a, *final(self), *final(bus), r->0)
                } else if ea_mode == 3 {
                    r is Some && spec_extended_read(
                        spec_step_an(*old(self), ea_reg, 12),
                        *old(bus),
                        a,
                        *final(self),
                        *final(bus),
                        r->0,
                    )
                } else if ea_mode == 4 {
                    r is Some && spec_extended_read(
                        spec_step_an(*old(self), ea_reg, -12),
                        *old(bus),
                        add32(a as int, -12),
                        *final(self),
                        *final(bus),
                        r->0,
                    )
                } else {
                    r is Some && exists|mid: CpuCore, addr: u32, bm: B|
                        #![trigger spec_extended_read(mid, bm, addr, *final(self), *final(bus), r->0)]
                        spec_fpu_ea(*old(self), mid, ea_mode, ea_reg, addr) && spec_fpu_ea_bus(
                            *old(self),
                            *old(bus),
                            mid,
                            bm,
                            ea_mode,
                            ea_reg,
                            addr,
                        ) && spec_extended_read(
                            mid,
                            bm,
                            addr,
                            *final(self),
                            *final(bus),
                            r->0,
                        )
                }
            }),
    {
        let ea_mode = ((opcode % 64) / 8) as u8;
        let ea_reg = (opcode % 8) as usize;
        let ghost s0 = *self;
        if ea_mode == 2 {
            let a = self.a(ea_reg);
            let v = self.read_extended_at(bus, a);
            Some(v)
        } else if ea_mode == 3 {
            let a = self.a(ea_reg);
            self.set_a(ea_reg, a.wrapping_add(12));
            proof {
                assert(self.dar =~= spec_step_an(s0, ea_reg, 12).dar);
            }
            let v = self.read_extended_at(bus, a);
            Some(v)
        } else if ea_mode == 4 {
            let a = self.a(ea_reg).wrapping_sub(12);
            self.set_a(ea_reg, a);
            proof {
                lemma_add32_twice(s0.dar@[8 + ea_reg] as int, -12, 0);
                assert(self.dar =~= spec_step_an(s0, ea_reg, -12).dar);
            }
            let v = self.read_extended_at(bus, a);
            Some(v)
        } else if ea_mode == 5 || (ea_mode == 7 && ea_reg <= 2) {
            let addr = self.get_fpu_ea_address(bus, ea_mode, ea_reg);
            let ghost mid = *self;
            let ghost bm = *bus;
            let v = self.read_extended_at(bus, addr);
            let res = Some(v);
            assert(spec_extended_read(mid, bm, addr, *self, *bus, res->0));
            res
        } else {
            None
        }
    }
}

/// The two longword writes that store the 64-bit `value` at `addr`, high
/// longword first (see [`write_u64_be`]).
pub open spec fn spec_quad_writes(addr: u32, value: u64) -> Seq<(u32, u32)> {
    seq![(addr, (value / 0x1_0000_0000) as u32), (add32(addr as int, 4), (value % 0x1_0000_0000) as u32)]
}

impl CpuCore {
    /// FMOVE FPn,<ea> once the register's value is converted to format
    /// `dst_fmt` (extension word already consumed): formats 0 (long integer)
    /// and 1 (single precision) store the low longword of `value` in Dn or at
    /// the operand's address; format 5 (double precision) stores all 64 bits
    /// at the operand's address, high longword first. A memory operand whose
    /// address comes out as 0 is not handled for formats 0 and 1; other
    /// formats are not handled.
    #[verifier::rlimit(40)]
    #[verifier::spinoff_prover]
    pub fn exec_fmove_out<B: AddressBus>(&mut self, bus: &mut B, opcode: u16, dst_fmt: u16, value: u64) -> (r: i32)
        ensures
            ({
                let ea_mode = ((opcode % 64) / 8) as u8;
                let ea_reg = (opcode % 8) as usize;
                let low = (value % 0x1_0000_0000) as u32;
                if dst_fmt == 0 || dst_fmt == 1 {
                    if ea_mode == 0 {
                        r == FSCC_CYCLES && *final(bus) == *old(bus) && *final(self) == (CpuCore {
                            dar: spec_array_update(old(self).dar, ea_reg as int, low),
                            ..*old(self)
                        })
                    } else {
                        exists|mid: CpuCore, addr: u32|
                            #![trigger spec_fpu_ea(*old(self), mid, ea_mode, ea_reg, addr)]
                            spec_fpu_ea(*old(self), mid, ea_mode, ea_reg, addr) && if addr == 0 {
                                r == 0 && *final(self) == mid
                            } else {
                                r == FSCC_CYCLES && exists|bm: B|
                                    #[trigger] spec_long_write(mid, bm, addr, low, *final(self), *final(bus))
                                        && spec_fpu_ea_bus(*old(self), *old(bus), mid, bm, ea_mode, ea_reg, addr)
                            }
                    }
                } else if dst_fmt == 5 {
                    r == FSCC_CYCLES && exists|mid: CpuCore, addr: u32, bm: B|
                        #![trigger spec_fpu_ea(*old(self), mid, ea_mode, ea_reg, addr), spec_long_writes(mid, bm, spec_quad_writes(addr, value), *final(self), *final(bus))]
                        spec_fpu_ea(*old(self), mid, ea_mode, ea_reg, addr) && spec_fpu_ea_bus(
                            *old(self),
                            *old(bus),
                            mid,
                            bm,
                            ea_mode,
                            ea_reg,
                            addr,
                        ) && spec_long_writes(
                            mid,
                            bm,
                            spec_quad_writes(addr, value),
                            *final(self),
                            *final(bus),
                        )
                } else {
                    r == 0 && *final(self) == *old(self) && *final(bus) == *old(bus)
                }
            }),
    {
        let ea_mode = ((opcode % 64) / 8) as u8;
        let ea_reg = (opcode % 8) as usize;
        let low = (value % 0x1_0000_0000) as u32;
        if dst_fmt == 0 || dst_fmt == 1 {
            if ea_mode == 0 {
                self.set_d(ea_reg, low);
                proof {
                    assert(self.dar =~= spec_array_update(old(self).dar, ea_reg as int, low));
                }
                FSCC_CYCLES
            } else {
                let addr = self.get_fpu_ea_address(bus, ea_mode, ea_reg);
                let ghost mid = *self;
                let ghost bm = *bus;
                if addr == 0 {
                    assert(spec_fpu_ea(*old(self), mid, ea_mode, ea_reg, addr));
                    return 0;
                }
                self.write_long_mem(bus, addr, low);
                assert(spec_long_write(mid, bm, addr, low, *self, *bus));
                FSCC_CYCLES
            }
        } else if dst_fmt == 5 {
            let addr = self.get_fpu_ea_address(bus, ea_mode, ea_reg);
            let ghost mid = *self;
            let ghost bm = *bus;
            write_u64_be(self, bus, addr, value);
            assert(spec_fpu_ea(*old(self), mid, ea_mode, ea_reg, addr));
            assert(spec_long_writes(mid, bm, spec_quad_writes(addr, value), *self, *bus));
            FSCC_CYCLES
        } else {
            0
        }
    }
}

/// `new` is `old` except for the program counter and the fault state:
/// extension words were read and bus accesses may have faulted.
pub open spec fn spec_pc_and_faults(old: CpuCore, new: CpuCore) -> bool {
    new == (CpuCore { pc: new.pc, run_mode: new.run_mode, pending_exception: new.pending_exception, ..old })
}

/// The control register selection of an FMOVE extension word (bits 10–12):
/// 4 FPCR, 2 FPSR, 1 FPIAR.
pub open spec fn spec_control_select(w2: u16) -> u16 {
    (w2 / 1024) % 8
}

/// The FPU after `value` is moved into the selected control registers.
pub open spec fn spec_set_control(s: CpuCore, sel: u16, value: u32) -> CpuCore {
    CpuCore {
        fpcr: if sel >= 4 { value } else { s.fpcr },
        fpsr: if (sel / 2) % 2 == 1 { value } else { s.fpsr },
        fpiar: if sel % 2 == 1 { value } else { s.fpiar },
        ..s
    }
}

/// The control register a single FMOVE from the control registers reads:
/// FPCR for 4 (and for a list), FPSR for 2, FPIAR for 1.
pub open spec fn spec_control_value(s: CpuCore, sel: u16) -> u32 {
    if sel == 4 {
        s.fpcr
    } else if sel == 2 {
        s.fpsr
    } else if sel == 1 {
        s.fpiar
    } else {
        s.fpcr
    }
}

/// An immediate long read from the instruction stream by core `c` (leaving
/// it as `c2`) that succeeded came from bus `b` at PC, leaving it as `b2`.
pub open spec fn spec_imm_long_from_bus<B: AddressBus>(c: CpuCore, c2: CpuCore, b: B, b2: B, v: u32) -> bool {
    c2.pc != c.pc ==> b.long_read(c.pc & c.address_mask, b2, v)
}

/// The long writes of an FMOVE of the control registers `sel` of `s` to
/// memory at `addr`: FPCR, FPSR and FPIAR in that order, each selected one
/// in the next longword.
pub open spec fn spec_control_writes(addr: u32, s: CpuCore, sel: u16) -> Seq<(u32, u32)> {
    let w0: Seq<(u32, u32)> = seq![];
    let w1 = if sel >= 4 { w0.push((addr, s.fpcr)) } else { w0 };
    let a1 = if sel >= 4 { add32(addr as int, 4) } else { addr };
    let w2 = if (sel / 2) % 2 == 1 { w1.push((a1, s.fpsr)) } else { w1 };
    let a2 = if (sel / 2) % 2 == 1 { add32(a1 as int, 4) } else { a1 };
    if sel % 2 == 1 { w2.push((a2, s.fpiar)) } else { w2 }
}

/// Reading an extension word changes only the program counter and the
/// fault state.
proof fn lemma_imm_read_pc_and_faults(old: CpuCore, new: CpuCore, value: int, width: int)
    requires
        spec_imm_read(old, new, value, width),
    ensures
        spec_pc_and_faults(old, new),
{
}

/// Computing an FPU effective address changes only the program counter and
/// the fault state.
proof fn lemma_fpu_ea_pc_and_faults(old: CpuCore, new: CpuCore, ea_mode: u8, ea_reg: usize, r: u32)
    requires
        spec_fpu_ea(old, new, ea_mode, ea_reg, r),
    ensures
        spec_pc_and_faults(old, new),
{
    if ea_mode == 5 || (ea_mode == 7 && (ea_reg == 0 || ea_reg == 2)) {
        let w = choose|w: u16| #![auto] spec_imm_read(old, new, w as int, 2);
        lemma_imm_read_pc_and_faults(old, new, w as int, 2);
    } else if ea_mode == 7 && ea_reg == 1 {
        let v = choose|v: u32| #![auto] spec_imm_read(old, new, v as int, 4);
        lemma_imm_read_pc_and_faults(old, new, v as int, 4);
    }
}

impl CpuCore {
    /// FMOVE to the FPU control registers (extension word `w2`, already read
    /// at PC): the source longword (a data register, an immediate, or memory)
    /// is moved into each selected control register. The extension word is
    /// consumed first.
    #[verifier::rlimit(40)]
    #[verifier::spinoff_prover]
    pub fn exec_fmove_to_control<B: AddressBus>(&mut self, bus: &mut B, opcode: u16, w2: u16) -> (r: i32)
        ensures
            r == FSCC_CYCLES,
            ({
                let ea_mode = (opcode % 64) / 8;
                let ea_reg = (opcode % 8) as int;
                let sel = spec_control_select(w2);
                if ea_mode == 0 {
                    exists|mid: CpuCore, w: u16| #![auto]
                        spec_imm_read(*old(self), mid, w as int, 2) && *final(self) == spec_set_control(
                            mid,
                            sel,
                            old(self).dar@[ea_reg],
                        )
                } else {
                    exists|mid: CpuCore, v: u32| #![auto]
                        spec_pc_and_faults(*old(self), mid) && *final(self) == spec_set_control(mid, sel, v)
                }
            }),
            ({
                let ea_mode = (opcode % 64) / 8;
                let ea_reg = (opcode % 8) as int;
                let sel = spec_control_select(w2);
                &&& (ea_mode != 0 && !(ea_mode == 7 && ea_reg == 4)) ==> exists|
                    m1: CpuCore,
                    b1: B,
                    w: u16,
                    mid: CpuCore,
                    addr: u32,
                    bm: B,
                    m2: CpuCore,
                    v: u32,
                |
                    #![trigger spec_imm_read(*old(self), m1, w as int, 2), spec_fpu_ea_bus(m1, b1, mid, bm, ea_mode as u8, ea_reg as usize, addr), spec_long_read(mid, bm, addr, m2, *final(bus), v)]
                    spec_imm_read(*old(self), m1, w as int, 2) && spec_fpu_ea(m1, mid, ea_mode as u8, ea_reg as usize, addr)
                        && (m1.pc != old(self).pc ==> old(bus).word_read(old(self).pc & old(self).address_mask, b1, w))
                        && spec_fpu_ea_bus(m1, b1, mid, bm, ea_mode as u8, ea_reg as usize, addr)
                        && spec_long_read(mid, bm, addr, m2, *final(bus), v) && *final(self) == spec_set_control(
                        m2,
                        sel,
                        v,
                    )
                &&& (ea_mode == 7 && ea_reg == 4) ==> exists|m1: CpuCore, w: u16, bm: B, m2: CpuCore, v: u32|
                    #![trigger spec_imm_read(*old(self), m1, w as int, 2), spec_imm_long_from_bus(m1, m2, bm, *final(bus), v)]
                    spec_imm_read(*old(self), m1, w as int, 2) && spec_imm_read(m1, m2, v as int, 4)
                        && spec_imm_long_from_bus(m1, m2, bm, *final(bus), v) && *final(self) == spec_set_control(
                        m2,
                        sel,
                        v,
                    )
            }),
    {
        let ctrl_sel = (w2 / 1024) % 8;
        let w = self.read_imm_16(bus);
        let ea_mode = ((opcode % 64) / 8) as u8;
        let ea_reg = (opcode % 8) as usize;
        let ghost mid = *self;
        let ghost b1 = *bus;
        assert(spec_imm_read(*old(self), mid, w as int, 2));
        proof {
            lemma_imm_read_pc_and_faults(*old(self), mid, w as int, 2);
        }
        let ghost mut me = mid;
        let ghost mut bm = *bus;
        let src: u32 = if ea_mode == 0 {
            self.d(ea_reg)
        } else if ea_mode == 7 && ea_reg == 4 {
            proof {
                bm = *bus;
            }
            let v = self.read_imm_32(bus);
            proof {
                lemma_imm_read_pc_and_faults(mid, *self, v as int, 4);
                assert(spec_imm_read(mid, *self, v as int, 4));
                assert(self.pc != mid.pc ==> bm.long_read(mid.pc & mid.address_mask, *bus, v));
            }
            v
        } else {
            let addr = self.get_fpu_ea_address(bus, ea_mode, ea_reg);
            proof {
                lemma_fpu_ea_pc_and_faults(mid, *self, ea_mode, ea_reg, addr);
            }
            proof {
                me = *self;
                bm = *bus;
            }
            let v = self.read_long_mem(bus, addr);
            proof {
                assert(spec_fpu_ea(mid, me, ea_mode, ea_reg, addr) && spec_fpu_ea_bus(mid, b1, me, bm, ea_mode, ea_reg, addr) && spec_long_read(me, bm, addr, *self, *bus, v));
            }
            v
        };
        let ghost m2 = *self;
        assert(spec_pc_and_faults(*old(self), m2));
        assert(ea_mode == 0 ==> m2 == mid && src == old(self).dar@[ea_reg as int]);
        if ctrl_sel >= 4 {
            self.fpcr = src;
        }
        if (ctrl_sel / 2) % 2 == 1 {
            self.fpsr = src;
        }
        if ctrl_sel % 2 == 1 {
            self.fpiar = src;
        }
        assert(*self == spec_set_control(m2, ctrl_sel, src));
        assert(ea_mode == 0 ==> spec_imm_read(*old(self), mid, w as int, 2) && *self == spec_set_control(
            mid,
            spec_control_select(w2),
            old(self).dar@[ea_reg as int],
        ));
        assert(spec_pc_and_faults(*old(self), m2) && *self == spec_set_control(m2, spec_control_select(w2), src));
        proof {
            if ea_mode == 7 && ea_reg == 4 {
                assert(spec_imm_read(*old(self), mid, w as int, 2) && spec_imm_read(mid, m2, src as int, 4) && (m2.pc
                    != mid.pc ==> bm.long_read(mid.pc & mid.address_mask, *bus, src)));
                assert(*self == spec_set_control(m2, spec_control_select(w2), src));
                assert(spec_imm_long_from_bus(mid, m2, bm, *bus, src));
            } else if ea_mode != 0 {
                let addr = choose|addr: u32| spec_fpu_ea(mid, me, ea_mode, ea_reg, addr) && spec_fpu_ea_bus(mid, b1, me, bm, ea_mode, ea_reg, addr) && spec_long_read(me, bm, addr, m2, *bus, src);
                assert(spec_fpu_ea(mid, me, ea_mode, ea_reg, addr) && spec_long_read(me, bm, addr, m2, *bus, src));
                assert(spec_fpu_ea_bus(mid, b1, me, bm, ea_mode, ea_reg, addr));
            }
        }
        FSCC_CYCLES
    }

    /// FMOVE from the FPU control registers (extension word `w2`, already
    /// read at PC): a data register takes the selected register; memory
    /// takes each selected register in turn (FPCR, FPSR, FPIAR). The
    /// extension word is consumed first.
    #[verifier::rlimit(40)]
    #[verifier::spinoff_prover]
    pub fn exec_fmove_from_control<B: AddressBus>(&mut self, bus: &mut B, opcode: u16, w2: u16) -> (r: i32)
        ensures
            r == FSCC_CYCLES,
            ({
                let ea_mode = (opcode % 64) / 8;
                let ea_reg = (opcode % 8) as int;
                let sel = spec_control_select(w2);
                if ea_mode == 0 {
                    exists|mid: CpuCore, w: u16| #![auto]
                        spec_imm_read(*old(self), mid, w as int, 2) && *final(self) == (CpuCore {
                            dar: spec_array_update(mid.dar, ea_reg, spec_control_value(mid, sel)),
                            ..mid
                        })
                } else {
                    spec_pc_and_faults(*old(self), *final(self)) && exists|
                        m1: CpuCore,
                        b1: B,
                        w: u16,
                        mid: CpuCore,
                        addr: u32,
                        bm: B,
                    |
                        #![trigger spec_imm_read(*old(self), m1, w as int, 2), spec_fpu_ea_bus(m1, b1, mid, bm, ea_mode as u8, ea_reg as usize, addr), spec_long_writes(mid, bm, spec_control_writes(addr, *old(self), sel), *final(self), *final(bus))]
                        spec_imm_read(*old(self), m1, w as int, 2) && spec_fpu_ea(m1, mid, ea_mode as u8, ea_reg as usize, addr)
                            && (m1.pc != old(self).pc ==> old(bus).word_read(old(self).pc & old(self).address_mask, b1, w))
                            && spec_fpu_ea_bus(m1, b1, mid, bm, ea_mode as u8, ea_reg as usize, addr)
                            && spec_long_writes(
                            mid,
                            bm,
                            spec_control_writes(addr, *old(self), sel),
                            *final(self),
                            *final(bus),
                        )
                }
            }),
    {
        let ctrl_sel = (w2 / 1024) % 8;
        let w = self.read_imm_16(bus);
        let ea_mode = ((opcode % 64) / 8) as u8;
        let ea_reg = (opcode % 8) as usize;
        let ghost mid = *self;
        let ghost b1 = *bus;
        assert(spec_imm_read(*old(self), mid, w as int, 2));
        proof {
            lemma_imm_read_pc_and_faults(*old(self), mid, w as int, 2);
        }
        let value = if ctrl_sel == 4 {
            self.fpcr
        } else if ctrl_sel == 2 {
            self.fpsr
        } else if ctrl_sel == 1 {
            self.fpiar
        } else {
            self.fpcr
        };
        if ea_mode == 0 {
            self.set_d(ea_reg, value);
            proof {
                assert(self.dar =~= spec_array_update(mid.dar, ea_reg as int, value));
            }
        } else {
            let addr = self.get_fpu_ea_address(bus, ea_mode, ea_reg);
            proof {
                lemma_fpu_ea_pc_and_faults(mid, *self, ea_mode, ea_reg, addr);
            }
            let ghost m1 = *self;
            let ghost run = spec_control_writes(addr, *old(self), ctrl_sel);
            let ghost mut cs: Seq<CpuCore> = seq![*self];
            let ghost mut bs: Seq<B> = seq![*bus];
            let ghost mut wr: Seq<(u32, u32)> = seq![];
            let mut cur_addr = addr;
            if ctrl_sel >= 4 {
                let v = self.fpcr;
                self.write_long_mem(bus, cur_addr, v);
                proof {
                    lemma_writes_via_append(cs, bs, wr, cur_addr, v, *self, *bus);
                    cs = cs.push(*self);
                    bs = bs.push(*bus);
                    wr = wr.push((cur_addr, v));
                }
                proof {
                    lemma_wrapping_add32(cur_addr, 4);
                }
                cur_addr = cur_addr.wrapping_add(4);
            }
            if (ctrl_sel / 2) % 2 == 1 {
                let v = self.fpsr;
                self.write_long_mem(bus, cur_addr, v);
                proof {
                    lemma_writes_via_append(cs, bs, wr, cur_addr, v, *self, *bus);
                    cs = cs.push(*self);
                    bs = bs.push(*bus);
                    wr = wr.push((cur_addr, v));
                }
                proof {
                    lemma_wrapping_add32(cur_addr, 4);
                }
                cur_addr = cur_addr.wrapping_add(4);
            }
            if ctrl_sel % 2 == 1 {
                let v = self.fpiar;
                self.write_long_mem(bus, cur_addr, v);
                proof {
                    lemma_writes_via_append(cs, bs, wr, cur_addr, v, *self, *bus);
                    cs = cs.push(*self);
                    bs = bs.push(*bus);
                    wr = wr.push((cur_addr, v));
                }
            }
            proof {
                assert(wr =~= run);
                assert(spec_long_writes_via(cs, bs, run));
                assert(spec_long_writes(m1, bs[0], run, *self, *bus));
                assert(spec_imm_read(*old(self), mid, w as int, 2));
                assert(spec_fpu_ea(mid, m1, ea_mode, ea_reg, addr));
                assert(spec_fpu_ea_bus(mid, b1, m1, bs[0], ea_mode, ea_reg, addr));
            }
        }
        FSCC_CYCLES
    }
}

/// Whether FMOVEM register list `reg_list` selects FP`i`: bit `i` when
/// `mode_bits` bit 0 is set, else bit `7 - i`.
pub open spec fn spec_fmovem_selects(reg_list: u16, mode_bits: u16, i: int) -> bool {
    let k = if mode_bits % 2 == 1 { i } else { 7 - i };
    (reg_list as int / pow2(k as nat) as int) % 2 == 1
}

/// How many of FP0..FP(n-1) the register list selects.
pub open spec fn spec_fmovem_count(reg_list: u16, mode_bits: u16, n: int) -> int
    decreases n,
{
    if n <= 0 {
        0
    } else {
        spec_fmovem_count(reg_list, mode_bits, n - 1) + if spec_fmovem_selects(reg_list, mode_bits, n - 1) {
            1int
        } else {
            0int
        }
    }
}

/// The longword addresses FMOVEM accesses for FP0..FP(n-1), in order: for
/// each selected register, the three longwords of its 12-byte slot, the
/// slots packed upwards from `start`.
pub open spec fn spec_fmovem_slots(start: u32, reg_list: u16, mode_bits: u16, n: int) -> Seq<u32>
    decreases n,
{
    if n <= 0 {
        seq![]
    } else {
        let prev = spec_fmovem_slots(start, reg_list, mode_bits, n - 1);
        if spec_fmovem_selects(reg_list, mode_bits, n - 1) {
            let slot = add32(start as int, 12 * spec_fmovem_count(reg_list, mode_bits, n - 1));
            prev + seq![slot, add32(slot as int, 4), add32(slot as int, 8)]
        } else {
            prev
        }
    }
}

/// The long writes of an FMOVEM store of FP0..FP(n-1) from `fpr`, in order:
/// for each selected register, a zero longword, then the high and the low
/// half of its bit pattern.
pub open spec fn spec_fmovem_store_run(start: u32, reg_list: u16, mode_bits: u16, fpr: Seq<u64>, n: int) -> Seq<(u32, u32)>
    decreases n,
{
    if n <= 0 {
        seq![]
    } else {
        let prev = spec_fmovem_store_run(start, reg_list, mode_bits, fpr, n - 1);
        if spec_fmovem_selects(reg_list, mode_bits, n - 1) {
            let slot = add32(start as int, 12 * spec_fmovem_count(reg_list, mode_bits, n - 1));
            let v = fpr[n - 1];
            prev + seq![
                (slot, 0u32),
                (add32(slot as int, 4), (v / 0x1_0000_0000) as u32),
                (add32(slot as int, 8), (v % 0x1_0000_0000) as u32),
            ]
        } else {
            prev
        }
    }
}

/// A run of long reads, in order: read `i` is made by core `cs[i]` at
/// `addrs[i]`, gives `vals[i]`, leaves the core as `ds[i]` and takes the bus
/// from `bs[i]` to `bs[i + 1]`.
pub open spec fn spec_long_reads_via<B: AddressBus>(
    cs: Seq<CpuCore>,
    ds: Seq<CpuCore>,
    bs: Seq<B>,
    addrs: Seq<u32>,
    vals: Seq<u32>,
) -> bool {
    &&& cs.len() == addrs.len()
    &&& ds.len() == addrs.len()
    &&& vals.len() == addrs.len()
    &&& bs.len() == addrs.len() + 1
    &&& forall|i: int|
        0 <= i < addrs.len() ==> #[trigger] spec_long_read(cs[i], bs[i], addrs[i], ds[i], bs[i + 1], vals[i])
}

/// The value FMOVEM loads into the `k`-th selected register from the
/// longwords it read: the second and third longwords of its slot.
pub open spec fn spec_fmovem_loaded(vals: Seq<u32>, k: int) -> int {
    vals[3 * k + 1] as int * 0x1_0000_0000 + vals[3 * k + 2] as int
}

/// The cores of a run of accesses decode addresses as `s` does.
pub open spec fn spec_same_decoding(cs: Seq<CpuCore>, s: CpuCore) -> bool {
    forall|i: int| 0 <= i < cs.len() ==> #[trigger] cs[i].cpu_type == s.cpu_type && cs[i].address_mask == s.address_mask
}

/// The bus traffic of an FMOVEM that ran (`old` the core before it, `new` and
/// `new_bus` after), through the core and bus states `cs`, `ds`, `bs` and the
/// longwords `vals` read: the slots start at An for `(An)`, `(An)+` and a
/// load through `-(An)`, and below all the slots for a store through
/// `-(An)`; a store writes each selected register to its slot, a load reads
/// each slot and sets the register from it. The bus before the run is the
/// bus after the extension words were read, of which nothing is stated.
pub open spec fn spec_fmovem_traffic<B: AddressBus>(
    old: CpuCore,
    new: CpuCore,
    new_bus: B,
    ea_mode: int,
    ea_reg: int,
    store: bool,
    reg_list: u16,
    mode_bits: u16,
    start: u32,
    cs: Seq<CpuCore>,
    ds: Seq<CpuCore>,
    bs: Seq<B>,
    vals: Seq<u32>,
) -> bool {
    let a = old.dar@[8 + ea_reg] as int;
    let n = spec_fmovem_count(reg_list, mode_bits, 8);
    &&& (ea_mode == 2 || ea_mode == 3 || (ea_mode == 4 && !store)) ==> start == a
    &&& (ea_mode == 4 && store) ==> start == add32(a, -12 * n)
    &&& bs.len() >= 1 && bs.last() == new_bus
    &&& spec_same_decoding(cs, old)
    &&& store ==> spec_long_writes_via(cs, bs, spec_fmovem_store_run(start, reg_list, mode_bits, old.fpr@, 8))
    &&& !store ==> spec_long_reads_via(cs, ds, bs, spec_fmovem_slots(start, reg_list, mode_bits, 8), vals)
    &&& !store ==> forall|i: int|
        0 <= i < 8 && spec_fmovem_selects(reg_list, mode_bits, i) ==> #[trigger] new.fpr@[i] == spec_fmovem_loaded(
            vals,
            spec_fmovem_count(reg_list, mode_bits, i),
        )
}

/// Each selected register takes three longwords of the runs.
#[verifier::spinoff_prover]
proof fn lemma_fmovem_lens(start: u32, reg_list: u16, mode_bits: u16, fpr: Seq<u64>, n: int)
    requires
        0 <= n,
    ensures
        spec_fmovem_slots(start, reg_list, mode_bits, n).len() == 3 * spec_fmovem_count(reg_list, mode_bits, n),
        spec_fmovem_store_run(start, reg_list, mode_bits, fpr, n).len() == 3 * spec_fmovem_count(reg_list, mode_bits, n),
        0 <= spec_fmovem_count(reg_list, mode_bits, n) <= n,
    decreases n,
{
    if n > 0 {
        lemma_fmovem_lens(start, reg_list, mode_bits, fpr, n - 1);
        let sel = spec_fmovem_selects(reg_list, mode_bits, n - 1);
        assert(spec_fmovem_count(reg_list, mode_bits, n) == spec_fmovem_count(reg_list, mode_bits, n - 1) + if sel {
            1int
        } else {
            0int
        });
    }
}

/// The count of selected registers grows with the range, by one past each
/// selected register.
proof fn lemma_fmovem_count_mono(reg_list: u16, mode_bits: u16, j: int, i: int)
    requires
        0 <= j < i,
    ensures
        spec_fmovem_count(reg_list, mode_bits, j) + (if spec_fmovem_selects(reg_list, mode_bits, j) {
            1int
        } else {
            0int
        }) <= spec_fmovem_count(reg_list, mode_bits, i),
    decreases i - j,
{
    if j + 1 < i {
        lemma_fmovem_count_mono(reg_list, mode_bits, j, i - 1);
    }
}

/// Extending a run of reads by the next one.
proof fn lemma_reads_via_push<B: AddressBus>(
    cs: Seq<CpuCore>,
    ds: Seq<CpuCore>,
    bs: Seq<B>,
    addrs: Seq<u32>,
    vals: Seq<u32>,
    k: int,
    c: CpuCore,
    d: CpuCore,
    b2: B,
    v: u32,
)
    requires
        0 <= k < addrs.len(),
        spec_long_reads_via(cs, ds, bs, addrs.take(k), vals),
        spec_long_read(c, bs.last(), addrs[k], d, b2, v),
    ensures
        spec_long_reads_via(cs.push(c), ds.push(d), bs.push(b2), addrs.take(k + 1), vals.push(v)),
{
    let a1 = addrs.take(k + 1);
    assert forall|i: int| 0 <= i < a1.len() implies #[trigger] spec_long_read(
        cs.push(c)[i],
        bs.push(b2)[i],
        a1[i],
        ds.push(d)[i],
        bs.push(b2)[i + 1],
        vals.push(v)[i],
    ) by {
        if i < k {
            assert(addrs.take(k)[i] == a1[i]);
            assert(spec_long_read(cs[i], bs[i], addrs.take(k)[i], ds[i], bs[i + 1], vals[i]));
        }
    }
}

fn list_bit(x: u16, k: u32) -> (r: bool)
    requires
        k < 16,
    ensures
        r == ((x as int / pow2(k as nat) as int) % 2 == 1),
{
    let mut y = x;
    let mut j: u32 = 0;
    proof {
        vstd::arithmetic::power2::lemma2_to64();
    }
    while j < k
        invariant
            j <= k,
            y as int == x as int / pow2(j as nat) as int,
        decreases k - j,
    {
        proof {
            vstd::arithmetic::power2::lemma_pow2_unfold((j + 1) as nat);
            vstd::arithmetic::power2::lemma_pow2_pos(j as nat);
            vstd::arithmetic::div_mod::lemma_div_denominator(x as int, pow2(j as nat) as int, 2);
        }
        y = y / 2;
        j += 1;
    }
    proof {
        vstd::arithmetic::power2::lemma_pow2_pos(k as nat);
    }
    y % 2 == 1
}

impl CpuCore {
    /// FMOVEM of the FP data registers (extension word `w2`, already read at
    /// PC; bits 13–15 are 6 to load the registers from memory, 7 to store
    /// them). The registers selected by the list in bits 0–7 (bit 11 picks
    /// the bit order) occupy 12-byte slots in ascending register order:
    /// four zero bytes, then the register's double-precision bit pattern.
    /// A store through `-(An)` first moves An below all the slots; `(An)+`
    /// leaves An past the last. A mode other than `(An)`, `(An)+` and
    /// `-(An)` whose address comes out as 0 is not handled.
    #[verifier::rlimit(100)]
    #[verifier::spinoff_prover]
    pub fn exec_fmovem<B: AddressBus>(&mut self, bus: &mut B, opcode: u16, w2: u16) -> (r: i32)
        requires
            w2 / 0x2000 == 6 || w2 / 0x2000 == 7,
        ensures
            r == 0 || r == FSAVE_CYCLES,
            ({
                let ea_mode = (opcode % 64) / 8;
                let ea_reg = (opcode % 8) as int;
                let store = w2 / 0x2000 == 7;
                let reg_list = w2 % 256;
                let mode_bits = (w2 / 2048) % 4;
                let n = spec_fmovem_count(reg_list, mode_bits, 8);
                let a = old(self).dar@[8 + ea_reg] as int;
                &&& final(self).fpcr == old(self).fpcr && final(self).fpsr == old(self).fpsr
                &&& final(self).fpiar == old(self).fpiar && final(self).fpu_just_reset == old(self).fpu_just_reset
                &&& forall|i: int| 0 <= i < 8 && (store || r == 0 || !spec_fmovem_selects(reg_list, mode_bits, i))
                    ==> #[trigger] final(self).fpr@[i] == old(self).fpr@[i]
                &&& forall|i: int| 0 <= i < 16 && i != 8 + ea_reg ==> #[trigger] final(self).dar@[i] == old(self).dar@[i]
                &&& r == FSAVE_CYCLES && ea_mode == 4 && store ==> final(self).dar@[8 + ea_reg] == add32(a, -12 * n)
                &&& r == FSAVE_CYCLES && ea_mode == 3 ==> final(self).dar@[8 + ea_reg] == add32(a, 12 * n)
                &&& !(r == FSAVE_CYCLES && (ea_mode == 3 || (ea_mode == 4 && store))) ==> final(self).dar@[8 + ea_reg]
                    == a
                &&& final(self).x_flag == old(self).x_flag && final(self).n_flag == old(self).n_flag
                &&& final(self).not_z_flag == old(self).not_z_flag && final(self).v_flag == old(self).v_flag
                &&& final(self).c_flag == old(self).c_flag
                &&& (ea_mode == 2 || ea_mode == 3 || ea_mode == 4) ==> r == FSAVE_CYCLES
                &&& !(2 <= ea_mode <= 5 || (ea_mode == 7 && ea_reg <= 2)) ==> r == 0
                &&& r == FSAVE_CYCLES && (ea_mode == 5 || (ea_mode == 7 && ea_reg <= 2)) ==> exists|
                    start: u32,
                    cs: Seq<CpuCore>,
                    ds: Seq<CpuCore>,
                    bs: Seq<B>,
                    vals: Seq<u32>,
                    m1: CpuCore,
                    b1: B,
                    w: u16,
                    mid: CpuCore,
                |
                    #![trigger spec_fmovem_traffic(*old(self), *final(self), *final(bus), ea_mode as int, ea_reg, store, reg_list, mode_bits, start, cs, ds, bs, vals), spec_fpu_ea_bus(m1, b1, mid, bs[0], ea_mode as u8, ea_reg as usize, start), spec_imm_read(*old(self), m1, w as int, 2)]
                    spec_fmovem_traffic(
                        *old(self),
                        *final(self),
                        *final(bus),
                        ea_mode as int,
                        ea_reg,
                        store,
                        reg_list,
                        mode_bits,
                        start,
                        cs,
                        ds,
                        bs,
                        vals,
                    ) && spec_imm_read(*old(self), m1, w as int, 2) && (m1.pc != old(self).pc ==> old(bus).word_read(
                        old(self).pc & old(self).address_mask,
                        b1,
                        w,
                    )) && spec_fpu_ea(m1, mid, ea_mode as u8, ea_reg as usize, start) && spec_fpu_ea_bus(
                        m1,
                        b1,
                        mid,
                        bs[0],
                        ea_mode as u8,
                        ea_reg as usize,
                        start,
                    )
                &&& r == FSAVE_CYCLES ==> exists|start: u32, cs: Seq<CpuCore>, ds: Seq<CpuCore>, bs: Seq<B>, vals: Seq<u32>|
                    #[trigger] spec_fmovem_traffic(
                        *old(self),
                        *final(self),
                        *final(bus),
                        ea_mode as int,
                        ea_reg,
                        store,
                        reg_list,
                        mode_bits,
                        start,
                        cs,
                        ds,
                        bs,
                        vals,
                    )
            }),
    {
        let direction = w2 / 0x2000;
        let reg_list = w2 % 256;
        let mode_bits = (w2 / 2048) % 4;
        let _w2 = self.read_imm_16(bus);
        let ea_mode = ((opcode % 64) / 8) as u8;
        let ea_reg = (opcode % 8) as usize;
        let ghost s0 = *old(self);
        let ghost a0 = s0.dar@[8 + ea_reg] as int;
        let ghost m0 = *self;
        let ghost b_w = *bus;
        let mut addr = self.get_fpu_ea_address(bus, ea_mode, ea_reg);
        let ghost m_ea = *self;
        let ghost b_ea = *bus;
        proof {
            lemma_fpu_ea_pc_and_faults(m0, *self, ea_mode, ea_reg, addr);
        }
        if addr == 0 && ea_mode != 2 && ea_mode != 3 && ea_mode != 4 {
            return 0;
        }
        let ghost total = spec_fmovem_count(reg_list, mode_bits, 8);
        if ea_mode == 4 && direction == 7 {
            let mut count: u32 = 0;
            let mut i: u32 = 0;
            while i < 8
                invariant
                    i <= 8,
                    count == spec_fmovem_count(reg_list, mode_bits, i as int),
                    count <= i,
                decreases 8 - i,
            {
                let k = if mode_bits % 2 == 1 { i } else { 7 - i };
                if list_bit(reg_list, k) {
                    count = count + 1;
                }
                i += 1;
            }
            let a = self.a(ea_reg);
            addr = a.wrapping_sub(count * 12);
            self.set_a(ea_reg, addr);
            proof {
                assert(addr == add32(a0, -12 * total));
            }
        }
        let ghost start = addr;
        let ghost pre = *self;
        let ghost mut wcs: Seq<CpuCore> = seq![*self];
        let ghost mut rcs: Seq<CpuCore> = seq![];
        let ghost mut rds: Seq<CpuCore> = seq![];
        let ghost mut bs: Seq<B> = seq![*bus];
        let ghost mut vals: Seq<u32> = seq![];
        proof {
            assert(spec_fmovem_store_run(start, reg_list, mode_bits, pre.fpr@, 0).take(0).len() == 0);
            assert(spec_fmovem_slots(start, reg_list, mode_bits, 0).take(0) =~= spec_fmovem_slots(start, reg_list, mode_bits, 0));
            assert(spec_fmovem_store_run(start, reg_list, mode_bits, pre.fpr@, 0).take(0) =~= spec_fmovem_store_run(start, reg_list, mode_bits, pre.fpr@, 0));
        }
        let mut i: u32 = 0;
        while i < 8
            invariant
                i <= 8,
                ea_reg < 8,
                w2 / 0x2000 == 6 || w2 / 0x2000 == 7,
                direction == w2 / 0x2000,
                reg_list == w2 % 256,
                mode_bits == (w2 / 2048) % 4,
                addr == add32(start as int, 12 * spec_fmovem_count(reg_list, mode_bits, i as int)),
                self.dar == pre.dar,
                self.fpcr == pre.fpcr && self.fpsr == pre.fpsr && self.fpiar == pre.fpiar,
                self.fpu_just_reset == pre.fpu_just_reset,
                self.x_flag == pre.x_flag && self.n_flag == pre.n_flag && self.not_z_flag == pre.not_z_flag,
                self.v_flag == pre.v_flag && self.c_flag == pre.c_flag,
                self.cpu_type == pre.cpu_type && self.address_mask == pre.address_mask,
                forall|j: int| 0 <= j < 8 && (direction == 7 || j >= i || !spec_fmovem_selects(reg_list, mode_bits, j))
                    ==> #[trigger] self.fpr@[j] == pre.fpr@[j],
                0 <= start < 0x1_0000_0000,
                bs.len() >= 1 && bs.last() == *bus && bs[0] == b_ea,
                direction == 7 ==> wcs.last() == *self && spec_same_decoding(wcs, pre) && spec_long_writes_via(
                    wcs,
                    bs,
                    spec_fmovem_store_run(start, reg_list, mode_bits, pre.fpr@, i as int),
                ),
                direction == 6 ==> spec_same_decoding(rcs, pre) && spec_long_reads_via(
                    rcs,
                    rds,
                    bs,
                    spec_fmovem_slots(start, reg_list, mode_bits, i as int),
                    vals,
                ),
                direction == 6 ==> forall|j: int|
                    0 <= j < i && spec_fmovem_selects(reg_list, mode_bits, j) ==> #[trigger] self.fpr@[j]
                        == spec_fmovem_loaded(vals, spec_fmovem_count(reg_list, mode_bits, j)),
                direction == 6 ==> vals.len() == 3 * spec_fmovem_count(reg_list, mode_bits, i as int),
            decreases 8 - i,
        {
            let k = if mode_bits % 2 == 1 { i } else { 7 - i };
            proof {
                lemma_fmovem_lens(start, reg_list, mode_bits, pre.fpr@, i as int);
                lemma_fmovem_lens(start, reg_list, mode_bits, pre.fpr@, i as int + 1);
            }
            let ghost c = spec_fmovem_count(reg_list, mode_bits, i as int);
            let ghost slots1 = spec_fmovem_slots(start, reg_list, mode_bits, i as int + 1);
            let ghost run1 = spec_fmovem_store_run(start, reg_list, mode_bits, pre.fpr@, i as int + 1);
            if list_bit(reg_list, k) {
                proof {
                    lemma_add32_twice(start as int, 12 * c, 4);
                    lemma_add32_twice(start as int, 12 * c, 8);
                    assert(slots1.take(3 * c) =~= spec_fmovem_slots(start, reg_list, mode_bits, i as int));
                    assert(run1.take(3 * c) =~= spec_fmovem_store_run(start, reg_list, mode_bits, pre.fpr@, i as int));
                }
                if direction == 6 {
                    let ghost old_vals = vals;
                    let ghost c1 = *self;
                    let _pad = self.read_long_mem(bus, addr);
                    proof {
                        lemma_reads_via_push(rcs, rds, bs, slots1, vals, 3 * c, c1, *self, *bus, _pad);
                        rcs = rcs.push(c1);
                        rds = rds.push(*self);
                        bs = bs.push(*bus);
                        vals = vals.push(_pad);
                    }
                    let ghost c2 = *self;
                    let hi32 = self.read_long_mem(bus, addr.wrapping_add(4));
                    proof {
                        lemma_reads_via_push(rcs, rds, bs, slots1, vals, 3 * c + 1, c2, *self, *bus, hi32);
                        rcs = rcs.push(c2);
                        rds = rds.push(*self);
                        bs = bs.push(*bus);
                        vals = vals.push(hi32);
                    }
                    let ghost c3 = *self;
                    let lo32 = self.read_long_mem(bus, addr.wrapping_add(8));
                    proof {
                        lemma_reads_via_push(rcs, rds, bs, slots1, vals, 3 * c + 2, c3, *self, *bus, lo32);
                        rcs = rcs.push(c3);
                        rds = rds.push(*self);
                        bs = bs.push(*bus);
                        vals = vals.push(lo32);
                        assert(slots1.take(3 * c + 3) =~= slots1);
                    }
                    let hi = hi32 as u64;
                    let lo = lo32 as u64;
                    self.fpr[i as usize] = hi * 0x1_0000_0000 + lo;
                    proof {
                        assert(spec_fmovem_loaded(vals, c) == hi * 0x1_0000_0000 + lo);
                        assert forall|j: int|
                            0 <= j < i + 1 && spec_fmovem_selects(reg_list, mode_bits, j) implies #[trigger] self.fpr@[j]
                                == spec_fmovem_loaded(vals, spec_fmovem_count(reg_list, mode_bits, j)) by {
                            if j < i {
                                lemma_fmovem_count_mono(reg_list, mode_bits, j, i as int);
                                let cj = spec_fmovem_count(reg_list, mode_bits, j);
                                lemma_fmovem_lens(start, reg_list, mode_bits, pre.fpr@, j);
                                assert(0 <= cj && 3 * cj + 2 < 3 * c);
                                assert(vals.take(3 * c) =~= old_vals);
                                assert(vals[3 * cj + 1] == vals.take(3 * c)[3 * cj + 1]);
                                assert(vals[3 * cj + 2] == vals.take(3 * c)[3 * cj + 2]);
                            }
                        }
                    }
                } else {
                    let val = self.fpr[i as usize];
                    self.write_long_mem(bus, addr, 0);
                    proof {
                        lemma_writes_via_push(wcs, bs, run1, 3 * c, *self, *bus);
                        wcs = wcs.push(*self);
                        bs = bs.push(*bus);
                    }
                    self.write_long_mem(bus, addr.wrapping_add(4), (val / 0x1_0000_0000) as u32);
                    proof {
                        lemma_writes_via_push(wcs, bs, run1, 3 * c + 1, *self, *bus);
                        wcs = wcs.push(*self);
                        bs = bs.push(*bus);
                    }
                    self.write_long_mem(bus, addr.wrapping_add(8), (val % 0x1_0000_0000) as u32);
                    proof {
                        lemma_writes_via_push(wcs, bs, run1, 3 * c + 2, *self, *bus);
                        wcs = wcs.push(*self);
                        bs = bs.push(*bus);
                        assert(run1.take(3 * c + 3) =~= run1);
                    }
                }
                proof {
                    lemma_add32_twice(start as int, 12 * spec_fmovem_count(reg_list, mode_bits, i as int), 12);
                }
                addr = addr.wrapping_add(12);
            } else {
                proof {
                    assert(slots1 == spec_fmovem_slots(start, reg_list, mode_bits, i as int));
                    assert(run1 == spec_fmovem_store_run(start, reg_list, mode_bits, pre.fpr@, i as int));
                }
            }
            i += 1;
        }
        if ea_mode == 3 {
            self.set_a(ea_reg, addr);
        }
        proof {
            assert(pre.fpr == s0.fpr);
            if ea_mode == 5 || (ea_mode == 7 && ea_reg <= 2) {
                assert(spec_imm_read(s0, m0, _w2 as int, 2));
                assert(spec_fpu_ea(m0, m_ea, ea_mode, ea_reg, start));
                assert(spec_fpu_ea_bus(m0, b_w, m_ea, bs[0], ea_mode, ea_reg, start));
            }
            if direction == 7 {
                assert(spec_fmovem_traffic(s0, *self, *bus, ea_mode as int, ea_reg as int, true, reg_list, mode_bits, start, wcs, rds, bs, vals));
            } else {
                assert(spec_fmovem_traffic(s0, *self, *bus, ea_mode as int, ea_reg as int, false, reg_list, mode_bits, start, rcs, rds, bs, vals));
            }
        }
        FSAVE_CYCLES
    }
}

} // verus!
