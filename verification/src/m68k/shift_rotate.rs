//! Shift and rotate instructions: ASL, ASR, LSL, LSR, ROL, ROR, ROXL, ROXR.
//!
//! Each takes the operand size, the shift count and the operand, and returns
//! the result with the cycle count, updating the condition codes.

use vstd::prelude::*;
use vstd::arithmetic::power2::{pow2, lemma_pow2_adds, lemma_pow2_pos, lemma_pow2_strictly_increases, lemma2_to64};
use vstd::arithmetic::div_mod::lemma_multiply_divide_lt;
use crate::m68k::cpu::{CpuCore, CFLAG_SET, NVFLAG_SET, spec_logic_flags, spec_nz};
use crate::m68k::types::{Size, size_bits, size_modulus, pow2_u64};

verus! {

/// Bit `i` of `v`.
pub open spec fn bit_of(v: int, i: int) -> bool {
    (v / pow2(i as nat) as int) % 2 == 1
}

/// Carry flag value for a carry bit.
pub open spec fn carry_flag(carry: bool) -> u32 {
    if carry { CFLAG_SET } else { 0 }
}

/// Overflow flag value for an overflow bit.
pub open spec fn overflow_flag(overflow: bool) -> u32 {
    if overflow { NVFLAG_SET } else { 0 }
}

/// The operand reduced to its size.
pub open spec fn operand(value: u32, size: Size) -> int {
    value as int % size_modulus(size) as int
}

/// The smaller of two counts.
pub open spec fn min_count(a: int, b: int) -> int {
    if a < b { a } else { b }
}

/// Cycles of a shift or rotate by `count`.
pub open spec fn shift_cycles(count: int) -> i32 {
    (6 + 2 * count) as i32
}

/// Operand shifted left by `s` (`s >= 1`), zeros in from the right.
pub open spec fn spec_shl(value: u32, size: Size, s: int) -> int {
    let b = size_bits(size) as int;
    (operand(value, size) * pow2(min_count(s, b) as nat) as int) % size_modulus(size) as int
}

/// Last bit shifted out to the left: bit `bits - s` when `s <= bits`.
pub open spec fn spec_shl_carry(value: u32, size: Size, s: int) -> bool {
    let b = size_bits(size) as int;
    s <= b && bit_of(operand(value, size), b - s)
}

/// Whether the sign bit changes at some step of an arithmetic left shift by
/// `s`: the top `k + 1` bits of the operand, counting a zero below bit 0, are
/// not all equal (`k = min(s, bits)`).
pub open spec fn spec_asl_overflow(value: u32, size: Size, s: int) -> bool {
    let b = size_bits(size) as int;
    let k = min_count(s, b);
    let top = (2 * operand(value, size)) / pow2((b - k) as nat) as int;
    top != 0 && top != pow2((k + 1) as nat) - 1
}

/// Operand shifted right by `s` (`s >= 1`), zeros in from the left.
pub open spec fn spec_lsr(value: u32, size: Size, s: int) -> int {
    let b = size_bits(size) as int;
    operand(value, size) / pow2(min_count(s, b) as nat) as int
}

/// Last bit shifted out to the right: bit `s - 1` when `s <= bits`.
pub open spec fn spec_lsr_carry(value: u32, size: Size, s: int) -> bool {
    let b = size_bits(size) as int;
    s <= b && bit_of(operand(value, size), s - 1)
}

/// Whether the operand is negative.
pub open spec fn spec_sign(value: u32, size: Size) -> bool {
    operand(value, size) >= pow2((size_bits(size) - 1) as nat)
}

/// Operand shifted right by `s` (`s >= 1`), copies of the sign bit in from the left.
pub open spec fn spec_asr(value: u32, size: Size, s: int) -> int {
    let b = size_bits(size) as int;
    let k = min_count(s, b);
    let shifted = operand(value, size) / pow2(k as nat) as int;
    if spec_sign(value, size) {
        shifted + size_modulus(size) - pow2((b - k) as nat)
    } else {
        shifted
    }
}

/// Last bit shifted out by an arithmetic right shift: bit `min(s, bits) - 1`.
pub open spec fn spec_asr_carry(value: u32, size: Size, s: int) -> bool {
    let b = size_bits(size) as int;
    bit_of(operand(value, size), min_count(s, b) - 1)
}

/// `v` (below `2^n`) rotated left by `r` within `n` bits (`0 <= r <= n`): the low
/// `n - r` bits move up, the high `r` bits come round to the bottom.
pub open spec fn rotate_left(v: int, n: int, r: int) -> int {
    (v % pow2((n - r) as nat) as int) * pow2(r as nat) as int + v / pow2((n - r) as nat) as int
}

/// `v` rotated right by `r` within `n` bits (`0 <= r <= n`).
pub open spec fn rotate_right(v: int, n: int, r: int) -> int {
    v / pow2(r as nat) as int + (v % pow2(r as nat) as int) * pow2((n - r) as nat) as int
}

/// Number of single-bit steps a ROL or ROR by `count` (`count >= 1`) performs:
/// a multiple of the width is a full turn.
pub open spec fn rotate_steps(count: int, size: Size) -> int {
    let b = size_bits(size) as int;
    if count % b == 0 { b } else { count % b }
}

/// The operand with the X bit above it, a `bits + 1` bit quantity.
pub open spec fn extended(value: u32, size: Size, x: bool) -> int {
    (if x { size_modulus(size) as int } else { 0 }) + operand(value, size)
}

/// A `bits + 1` bit quantity rotated through X by `s`, left or right.
pub open spec fn spec_rotate_x(value: u32, size: Size, x: bool, s: int, left: bool) -> int {
    let n = size_bits(size) as int + 1;
    if left {
        rotate_left(extended(value, size, x), n, s)
    } else {
        rotate_right(extended(value, size, x), n, s)
    }
}

/// `v % 2^lo` moved up by `hi` bits plus `v / 2^lo` stays below `2^(lo + hi)`.
proof fn lemma_rotate_fits(v: int, lo: nat, hi: nat)
    requires
        0 <= v < pow2(lo + hi),
    ensures
        0 <= (v % pow2(lo) as int) * pow2(hi) as int + (v / pow2(lo) as int) < pow2(lo + hi),
        0 <= (v / pow2(lo) as int) < pow2(hi),
{
    lemma_pow2_pos(lo);
    lemma_pow2_pos(hi);
    lemma_pow2_adds(lo, hi);
    let a = pow2(lo) as int;
    let c = pow2(hi) as int;
    lemma_multiply_divide_lt(v, a, c);
    let m = v % a;
    assert(0 <= m < a);
    assert(m * c <= (a - 1) * c) by (nonlinear_arith)
        requires
            0 <= m < a,
            c > 0,
    ;
    assert((a - 1) * c == a * c - c) by (nonlinear_arith);
    assert(0 <= m * c) by (nonlinear_arith)
        requires
            0 <= m,
            c > 0,
    ;
    assert(0 <= v / a) by (nonlinear_arith)
        requires
            0 <= v,
            a > 0,
    ;
}

/// `2^k` for `k <= 32` is at most `2^32`.
proof fn lemma_pow2_at_most_32(k: nat)
    requires
        k <= 32,
    ensures
        0 < pow2(k) <= 0x1_0000_0000,
{
    lemma2_to64();
    lemma_pow2_pos(k);
    if k < 32 {
        lemma_pow2_strictly_increases(k, 32);
    }
}

/// The operand reduced to its size is below `2^bits` and `2^bits` is at most `2^32`.
proof fn lemma_operand_bounds(value: u32, size: Size)
    ensures
        0 <= operand(value, size) < size_modulus(size) <= 0x1_0000_0000,
        size_modulus(size) == pow2(size_bits(size)),
{
    lemma2_to64();
}

impl CpuCore {
    /// Set N and Z from `value`, leaving V, C and X as they are.
    fn set_logic_flags_nv(&mut self, value: u32, size: Size)
        ensures
            *final(self) == spec_nz(*old(self), value, size),
    {
        let msb = size.msb_mask();
        self.n_flag = if value & msb != 0 { NVFLAG_SET } else { 0 };
        self.not_z_flag = value & size.mask();
    }

    /// ASL: arithmetic shift left by `shift % 64`. X and C receive the last bit
    /// shifted out (clear when the count exceeds the width), V is set when the
    /// sign bit changes at any step, N and Z follow the result. A zero count
    /// returns the operand unchanged with C and V clear.
    pub fn exec_asl(&mut self, size: Size, shift: u32, value: u32) -> (r: (u32, i32))
        ensures
            shift % 64 == 0 ==> r == (value, 6i32) && *final(self) == spec_logic_flags(*old(self), value, size),
            shift % 64 != 0 ==> {
                let s = (shift % 64) as int;
                let c = carry_flag(spec_shl_carry(value, size, s));
                &&& r.0 == spec_shl(value, size, s)
                &&& r.1 == shift_cycles(s)
                &&& *final(self) == spec_nz(
                    CpuCore { c_flag: c, x_flag: c, v_flag: overflow_flag(spec_asl_overflow(value, size, s)), ..*old(self) },
                    r.0,
                    size,
                )
            },
    {
        let s = shift % 64;
        if s == 0 {
            self.c_flag = 0;
            self.set_logic_flags(value, size);
            return (value, 6);
        }
        let b = size.bits();
        let m = size.modulus();
        proof {
            lemma_operand_bounds(value, size);
        }
        let v = (value as u64) % m;
        let k = if s < b { s } else { b };
        proof {
            lemma_pow2_at_most_32(k as nat);
            lemma_pow2_at_most_32((b - k) as nat);
            assert(v * pow2(k as nat) <= 0xFFFF_FFFF * 0x1_0000_0000) by (nonlinear_arith)
                requires
                    v <= 0xFFFF_FFFF,
                    pow2(k as nat) <= 0x1_0000_0000,
            ;
        }
        let p = pow2_u64(k);
        let result = ((v * p) % m) as u32;
        let carry = if s <= b {
            (v / pow2_u64(b - s)) % 2 == 1
        } else {
            false
        };
        proof {
            lemma_pow2_pos((k + 1) as nat);
        }
        let top = (2 * v) / pow2_u64(b - k);
        let overflow = top != 0 && top != pow2_u64(k + 1) - 1;
        self.c_flag = if carry { CFLAG_SET } else { 0 };
        self.x_flag = self.c_flag;
        self.v_flag = if overflow { NVFLAG_SET } else { 0 };
        self.set_logic_flags_nv(result, size);
        (result, 6 + 2 * s as i32)
    }

    /// ASR: arithmetic shift right by `shift % 64`, copying the sign bit in. X
    /// and C receive the last bit shifted out (the sign bit once the count
    /// reaches the width), V is clear, N and Z follow the result. A zero count
    /// returns the operand unchanged with C and V clear.
    pub fn exec_asr(&mut self, size: Size, shift: u32, value: u32) -> (r: (u32, i32))
        ensures
            shift % 64 == 0 ==> r == (value, 6i32) && *final(self) == spec_logic_flags(*old(self), value, size),
            shift % 64 != 0 ==> {
                let s = (shift % 64) as int;
                let c = carry_flag(spec_asr_carry(value, size, s));
                &&& r.0 == spec_asr(value, size, s)
                &&& r.1 == shift_cycles(s)
                &&& *final(self) == spec_nz(CpuCore { c_flag: c, x_flag: c, v_flag: 0, ..*old(self) }, r.0, size)
            },
    {
        let s = shift % 64;
        if s == 0 {
            self.c_flag = 0;
            self.set_logic_flags(value, size);
            return (value, 6);
        }
        let b = size.bits();
        let m = size.modulus();
        proof {
            lemma_operand_bounds(value, size);
        }
        let v = (value as u64) % m;
        let k = if s < b { s } else { b };
        proof {
            lemma_pow2_at_most_32(k as nat);
            lemma_pow2_at_most_32((b - k) as nat);
            lemma_pow2_at_most_32((b - 1) as nat);
            lemma_pow2_adds(k as nat, (b - k) as nat);
            lemma_multiply_divide_lt(v as int, pow2(k as nat) as int, pow2((b - k) as nat) as int);
            lemma_pow2_strictly_increases((b - k) as nat, b as nat);
            lemma_pow2_pos((k - 1) as nat);
        }
        let half = pow2_u64(b - 1);
        let shifted = v / pow2_u64(k);
        let result: u32 = if v >= half {
            (shifted + m - pow2_u64(b - k)) as u32
        } else {
            shifted as u32
        };
        let carry = (v / pow2_u64(k - 1)) % 2 == 1;
        self.c_flag = if carry { CFLAG_SET } else { 0 };
        self.x_flag = self.c_flag;
        self.v_flag = 0;
        self.set_logic_flags_nv(result, size);
        (result, 6 + 2 * s as i32)
    }

    /// LSL: logical shift left by `shift % 64`. X and C receive the last bit
    /// shifted out (clear when the count exceeds the width), V is clear, N and
    /// Z follow the result. A zero count returns the operand unchanged with C
    /// and V clear.
    pub fn exec_lsl(&mut self, size: Size, shift: u32, value: u32) -> (r: (u32, i32))
        ensures
            shift % 64 == 0 ==> r == (value, 6i32) && *final(self) == spec_logic_flags(*old(self), value, size),
            shift % 64 != 0 ==> {
                let s = (shift % 64) as int;
                let c = carry_flag(spec_shl_carry(value, size, s));
                &&& r.0 == spec_shl(value, size, s)
                &&& r.1 == shift_cycles(s)
                &&& *final(self) == spec_nz(CpuCore { c_flag: c, x_flag: c, v_flag: 0, ..*old(self) }, r.0, size)
            },
    {
        let s = shift % 64;
        if s == 0 {
            self.c_flag = 0;
            self.set_logic_flags(value, size);
            return (value, 6);
        }
        let b = size.bits();
        let m = size.modulus();
        proof {
            lemma_operand_bounds(value, size);
        }
        let v = (value as u64) % m;
        let k = if s < b { s } else { b };
        proof {
            lemma_pow2_at_most_32(k as nat);
            assert(v * pow2(k as nat) <= 0xFFFF_FFFF * 0x1_0000_0000) by (nonlinear_arith)
                requires
                    v <= 0xFFFF_FFFF,
                    pow2(k as nat) <= 0x1_0000_0000,
            ;
        }
        let result = ((v * pow2_u64(k)) % m) as u32;
        let carry = if s <= b {
            proof {
                lemma_pow2_at_most_32((b - s) as nat);
            }
            (v / pow2_u64(b - s)) % 2 == 1
        } else {
            false
        };
        self.c_flag = if carry { CFLAG_SET } else { 0 };
        self.x_flag = self.c_flag;
        self.v_flag = 0;
        self.set_logic_flags_nv(result, size);
        (result, 6 + 2 * s as i32)
    }

    /// LSR: logical shift right by `shift % 64`, zeros in. X and C receive the
    /// last bit shifted out (clear when the count exceeds the width), V is
    /// clear, N and Z follow the result. A zero count returns the operand
    /// unchanged with C and V clear.
    pub fn exec_lsr(&mut self, size: Size, shift: u32, value: u32) -> (r: (u32, i32))
        ensures
            shift % 64 == 0 ==> r == (value, 6i32) && *final(self) == spec_logic_flags(*old(self), value, size),
            shift % 64 != 0 ==> {
                let s = (shift % 64) as int;
                let c = carry_flag(spec_lsr_carry(value, size, s));
                &&& r.0 == spec_lsr(value, size, s)
                &&& r.1 == shift_cycles(s)
                &&& *final(self) == spec_nz(CpuCore { c_flag: c, x_flag: c, v_flag: 0, ..*old(self) }, r.0, size)
            },
    {
        let s = shift % 64;
        if s == 0 {
            self.c_flag = 0;
            self.set_logic_flags(value, size);
            return (value, 6);
        }
        let b = size.bits();
        let m = size.modulus();
        proof {
            lemma_operand_bounds(value, size);
        }
        let v = (value as u64) % m;
        let k = if s < b { s } else { b };
        proof {
            lemma_pow2_at_most_32(k as nat);
            assert(v as int / pow2(k as nat) as int <= v as int) by (nonlinear_arith)
                requires
                    pow2(k as nat) >= 1,
                    v >= 0,
            ;
        }
        let result = (v / pow2_u64(k)) as u32;
        let carry = if s <= b {
            proof {
                lemma_pow2_pos((s - 1) as nat);
            }
            (v / pow2_u64(s - 1)) % 2 == 1
        } else {
            false
        };
        self.c_flag = if carry { CFLAG_SET } else { 0 };
        self.x_flag = self.c_flag;
        self.v_flag = 0;
        self.set_logic_flags_nv(result, size);
        (result, 6 + 2 * s as i32)
    }

    /// ROL: rotate left. A count of `shift % 64` rotates by that count modulo
    /// the width, a non-zero multiple of the width being a full turn. C receives
    /// the last bit rotated round, V is clear, X is unchanged, N and Z follow
    /// the result. A zero count returns the masked operand with C and V clear.
    pub fn exec_rol(&mut self, size: Size, shift: u32, value: u32) -> (r: (u32, i32))
        ensures
            shift % 64 == 0 ==> r == (value & crate::m68k::types::spec_size_mask(size), 6i32)
                && *final(self) == spec_nz(CpuCore { c_flag: 0, v_flag: 0, ..*old(self) }, r.0, size),
            shift % 64 != 0 ==> {
                let cnt = (shift % 64) as int;
                let b = size_bits(size) as int;
                let st = rotate_steps(cnt, size);
                let c = carry_flag(bit_of(operand(value, size), b - st));
                &&& r.0 == rotate_left(operand(value, size), b, st)
                &&& r.1 == shift_cycles(cnt)
                &&& *final(self) == spec_nz(CpuCore { c_flag: c, v_flag: 0, ..*old(self) }, r.0, size)
            },
    {
        let cnt = shift % 64;
        if cnt == 0 {
            let result = value & size.mask();
            self.c_flag = 0;
            self.v_flag = 0;
            self.set_logic_flags_nv(result, size);
            return (result, 6);
        }
        let b = size.bits();
        let m = size.modulus();
        proof {
            lemma_operand_bounds(value, size);
        }
        let v = (value as u64) % m;
        let mut steps = cnt % b;
        if steps == 0 {
            steps = b;
        }
        proof {
            lemma_pow2_at_most_32((b - steps) as nat);
            lemma_pow2_at_most_32(steps as nat);
            lemma_rotate_fits(v as int, (b - steps) as nat, steps as nat);
        }
        let lo_p = pow2_u64(b - steps);
        let hi_p = pow2_u64(steps);
        let result = ((v % lo_p) * hi_p + v / lo_p) as u32;
        let carry = (v / lo_p) % 2 == 1;
        self.c_flag = if carry { CFLAG_SET } else { 0 };
        self.v_flag = 0;
        self.set_logic_flags_nv(result, size);
        (result, 6 + 2 * cnt as i32)
    }

    /// ROR: rotate right, counting as ROL does. C receives the last bit
    /// rotated round (the new sign bit), V is clear, X is unchanged, N and Z
    /// follow the result. A zero count returns the masked operand with C and V
    /// clear.
    pub fn exec_ror(&mut self, size: Size, shift: u32, value: u32) -> (r: (u32, i32))
        ensures
            shift % 64 == 0 ==> r == (value & crate::m68k::types::spec_size_mask(size), 6i32)
                && *final(self) == spec_nz(CpuCore { c_flag: 0, v_flag: 0, ..*old(self) }, r.0, size),
            shift % 64 != 0 ==> {
                let cnt = (shift % 64) as int;
                let b = size_bits(size) as int;
                let st = rotate_steps(cnt, size);
                let c = carry_flag(bit_of(operand(value, size), st - 1));
                &&& r.0 == rotate_right(operand(value, size), b, st)
                &&& r.1 == shift_cycles(cnt)
                &&& *final(self) == spec_nz(CpuCore { c_flag: c, v_flag: 0, ..*old(self) }, r.0, size)
            },
    {
        let cnt = shift % 64;
        if cnt == 0 {
            let result = value & size.mask();
            self.c_flag = 0;
            self.v_flag = 0;
            self.set_logic_flags_nv(result, size);
            return (result, 6);
        }
        let b = size.bits();
        let m = size.modulus();
        proof {
            lemma_operand_bounds(value, size);
        }
        let v = (value as u64) % m;
        let mut steps = cnt % b;
        if steps == 0 {
            steps = b;
        }
        proof {
            lemma_pow2_at_most_32((b - steps) as nat);
            lemma_pow2_at_most_32(steps as nat);
            lemma_pow2_pos((steps - 1) as nat);
            lemma_rotate_fits(v as int, steps as nat, (b - steps) as nat);
        }
        let hi_p = pow2_u64(steps);
        let lo_p = pow2_u64(b - steps);
        let result = (v / hi_p + (v % hi_p) * lo_p) as u32;
        let carry = (v / pow2_u64(steps - 1)) % 2 == 1;
        self.c_flag = if carry { CFLAG_SET } else { 0 };
        self.v_flag = 0;
        self.set_logic_flags_nv(result, size);
        (result, 6 + 2 * cnt as i32)
    }

    /// ROXL: rotate left through X by `shift % (bits + 1)`: the operand with X
    /// above it rotates as one `bits + 1` bit quantity. X and C receive the bit
    /// that ends up in X, V is clear, N and Z follow the result. A zero count
    /// returns the masked operand with C copied from X and V clear.
    pub fn exec_roxl(&mut self, size: Size, shift: u32, value: u32) -> (r: (u32, i32))
        ensures
            (shift as int) % (size_bits(size) as int + 1) == 0 ==> r == (value & crate::m68k::types::spec_size_mask(size), 6i32)
                && *final(self) == spec_nz(CpuCore { c_flag: old(self).x_flag, v_flag: 0, ..*old(self) }, r.0, size),
            (shift as int) % (size_bits(size) as int + 1) != 0 ==> {
                let s = ((shift as int) % (size_bits(size) as int + 1)) as int;
                let rotated = spec_rotate_x(value, size, old(self).x_flag != 0, s, true);
                let c = carry_flag(rotated >= size_modulus(size));
                &&& r.0 == rotated % size_modulus(size) as int
                &&& r.1 == shift_cycles(s)
                &&& *final(self) == spec_nz(CpuCore { c_flag: c, x_flag: c, v_flag: 0, ..*old(self) }, r.0, size)
            },
    {
        let b = size.bits();
        let s = shift % (b + 1);
        if s == 0 {
            let result = value & size.mask();
            self.c_flag = self.x_flag;
            self.v_flag = 0;
            self.set_logic_flags_nv(result, size);
            return (result, 6);
        }
        let m = size.modulus();
        proof {
            lemma_operand_bounds(value, size);
            lemma_pow2_adds(b as nat, 1);
            lemma2_to64();
        }
        let v = (value as u64) % m;
        let n = b + 1;
        let extended_value = if self.x_flag != 0 { m + v } else { v };
        proof {
            lemma_pow2_pos((n - s) as nat);
            lemma_pow2_at_most_32(s as nat);
            lemma_rotate_fits(extended_value as int, (n - s) as nat, s as nat);
        }
        let lo_p = pow2_u64(n - s);
        let rotated = (extended_value % lo_p) * pow2_u64(s) + extended_value / lo_p;
        let result = (rotated % m) as u32;
        let carry = rotated >= m;
        self.c_flag = if carry { CFLAG_SET } else { 0 };
        self.x_flag = self.c_flag;
        self.v_flag = 0;
        self.set_logic_flags_nv(result, size);
        (result, 6 + 2 * s as i32)
    }

    /// ROXR: rotate right through X, counting as ROXL does. X and C receive
    /// the bit that ends up in X, V is clear, N and Z follow the result. A zero
    /// count returns the masked operand with C copied from X and V clear.
    pub fn exec_roxr(&mut self, size: Size, shift: u32, value: u32) -> (r: (u32, i32))
        ensures
            (shift as int) % (size_bits(size) as int + 1) == 0 ==> r == (value & crate::m68k::types::spec_size_mask(size), 6i32)
                && *final(self) == spec_nz(CpuCore { c_flag: old(self).x_flag, v_flag: 0, ..*old(self) }, r.0, size),
            (shift as int) % (size_bits(size) as int + 1) != 0 ==> {
                let s = ((shift as int) % (size_bits(size) as int + 1)) as int;
                let rotated = spec_rotate_x(value, size, old(self).x_flag != 0, s, false);
                let c = carry_flag(rotated >= size_modulus(size));
                &&& r.0 == rotated % size_modulus(size) as int
                &&& r.1 == shift_cycles(s)
                &&& *final(self) == spec_nz(CpuCore { c_flag: c, x_flag: c, v_flag: 0, ..*old(self) }, r.0, size)
            },
    {
        let b = size.bits();
        let s = shift % (b + 1);
        if s == 0 {
            let result = value & size.mask();
            self.c_flag = self.x_flag;
            self.v_flag = 0;
            self.set_logic_flags_nv(result, size);
            return (result, 6);
        }
        let m = size.modulus();
        proof {
            lemma_operand_bounds(value, size);
            lemma_pow2_adds(b as nat, 1);
            lemma2_to64();
        }
        let v = (value as u64) % m;
        let n = b + 1;
        let extended_value = if self.x_flag != 0 { m + v } else { v };
        proof {
            lemma_pow2_pos((n - s) as nat);
            lemma_pow2_pos(s as nat);
            lemma_pow2_at_most_32(s as nat);
            lemma_rotate_fits(extended_value as int, s as nat, (n - s) as nat);
        }
        let hi_p = pow2_u64(s);
        let rotated = extended_value / hi_p + (extended_value % hi_p) * pow2_u64(n - s);
        let result = (rotated % m) as u32;
        let carry = rotated >= m;
        self.c_flag = if carry { CFLAG_SET } else { 0 };
        self.x_flag = self.c_flag;
        self.v_flag = 0;
        self.set_logic_flags_nv(result, size);
        (result, 6 + 2 * s as i32)
    }
}

/// Rotating right by the count a left rotation used gives the value back.
pub proof fn law_rotate_right_undoes_rotate_left(v: int, n: nat, r: nat)
    requires
        r <= n,
        0 <= v < pow2(n),
    ensures
        rotate_right(rotate_left(v, n as int, r as int), n as int, r as int) == v,
{
    let lo = (n - r) as nat;
    lemma_pow2_pos(lo);
    lemma_pow2_pos(r);
    assert(lo + r == n);
    lemma_rotate_fits(v, lo, r);
    let a = pow2(lo) as int;
    let c = pow2(r) as int;
    let low = v % a;
    let high = v / a;
    let x = low * c + high;
    assert(x == rotate_left(v, n as int, r as int));
    vstd::arithmetic::div_mod::lemma_fundamental_div_mod_converse(x, c, low, high);
    assert(x / c == low && x % c == high);
    vstd::arithmetic::div_mod::lemma_fundamental_div_mod(v, a);
    assert(v == a * high + low);
    vstd::arithmetic::mul::lemma_mul_is_commutative(a, high);
    assert(rotate_right(x, n as int, r as int) == low + high * a);
}

/// ROR by a count undoes ROL by the same count: both take the same number of
/// steps, and the rotations are inverse.
pub proof fn law_ror_undoes_rol(value: u32, size: Size, count: int)
    requires
        1 <= count < 64,
    ensures
        ({
            let b = size_bits(size) as int;
            let st = rotate_steps(count, size);
            rotate_right(rotate_left(operand(value, size), b, st), b, st) == operand(value, size)
        }),
{
    lemma_operand_bounds(value, size);
    let b = size_bits(size);
    let st = rotate_steps(count, size);
    assert(1 <= st <= b);
    law_rotate_right_undoes_rotate_left(operand(value, size), b, st as nat);
}

/// ROXR by a count undoes ROXL by the same count: the operand and X come back.
pub proof fn law_roxr_undoes_roxl(v: int, x: bool, size: Size, s: int)
    requires
        0 < s <= size_bits(size),
        0 <= v < size_modulus(size),
    ensures
        ({
            let n = size_bits(size) as int + 1;
            let ext = (if x { size_modulus(size) as int } else { 0 }) + v;
            rotate_right(rotate_left(ext, n, s), n, s) == ext
        }),
{
    lemma_operand_bounds(0, size);
    let b = size_bits(size);
    lemma_pow2_adds(b, 1);
    lemma2_to64();
    let ext = (if x { size_modulus(size) as int } else { 0 }) + v;
    law_rotate_right_undoes_rotate_left(ext, b + 1, s as nat);
}

} // verus!
