//! Operand sizes and CPU models.

use vstd::prelude::*;
use vstd::arithmetic::power2::pow2;

verus! {

/// CPU model.
#[derive(Clone, Copy, Debug, PartialEq, Eq, Structural)]
pub enum CpuType {
    M68000,
    M68010,
    M68EC020,
    M68020,
    M68EC030,
    M68030,
    M68EC040,
    M68LC040,
    M68040,
    SCC68070,
}

/// Operand size of an instruction.
#[derive(Clone, Copy, Debug, PartialEq, Eq, Structural)]
pub enum Size {
    Byte,
    Word,
    Long,
}

/// Width of an operand in bits.
pub open spec fn size_bits(size: Size) -> nat {
    match size {
        Size::Byte => 8,
        Size::Word => 16,
        Size::Long => 32,
    }
}

/// Number of distinct values of an operand: `2^bits`.
pub open spec fn size_modulus(size: Size) -> nat {
    pow2(size_bits(size))
}

/// Mask of an operand's bits.
pub open spec fn spec_size_mask(size: Size) -> u32 {
    match size {
        Size::Byte => 0xFF,
        Size::Word => 0xFFFF,
        Size::Long => 0xFFFF_FFFF,
    }
}

/// Mask of an operand's sign bit.
pub open spec fn spec_size_msb(size: Size) -> u32 {
    match size {
        Size::Byte => 0x80,
        Size::Word => 0x8000,
        Size::Long => 0x8000_0000,
    }
}

impl Size {
    /// Width in bytes.
    pub fn bytes(self) -> (r: u32)
        ensures
            r == size_bits(self) / 8,
    {
        match self {
            Size::Byte => 1,
            Size::Word => 2,
            Size::Long => 4,
        }
    }

    /// Width in bits.
    pub fn bits(self) -> (r: u32)
        ensures
            r == size_bits(self),
    {
        match self {
            Size::Byte => 8,
            Size::Word => 16,
            Size::Long => 32,
        }
    }

    /// Mask of the operand's bits.
    pub fn mask(self) -> (r: u32)
        ensures
            r == spec_size_mask(self),
    {
        match self {
            Size::Byte => 0xFF,
            Size::Word => 0xFFFF,
            Size::Long => 0xFFFF_FFFF,
        }
    }

    /// Mask of the operand's sign bit.
    pub fn msb_mask(self) -> (r: u32)
        ensures
            r == spec_size_msb(self),
    {
        match self {
            Size::Byte => 0x80,
            Size::Word => 0x8000,
            Size::Long => 0x8000_0000,
        }
    }

    /// `2^bits`, the number of values of the operand.
    pub fn modulus(self) -> (r: u64)
        ensures
            r == size_modulus(self),
            r == spec_size_mask(self) + 1,
    {
        proof {
            vstd::arithmetic::power2::lemma2_to64();
        }
        match self {
            Size::Byte => 0x100,
            Size::Word => 0x1_0000,
            Size::Long => 0x1_0000_0000,
        }
    }
}

/// `2^n` as a machine integer.
pub fn pow2_u64(n: u32) -> (r: u64)
    requires
        n < 64,
    ensures
        r == pow2(n as nat),
{
    proof {
        vstd::bits::lemma_u64_pow2_no_overflow(n as nat);
        vstd::bits::lemma_u64_shl_is_mul(1u64, n as u64);
    }
    1u64 << (n as u64)
}

} // verus!
