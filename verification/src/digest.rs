//! Deterministic digests over emulated state.
//!
//! These digests answer one question: did two runs reach the same state? They
//! are not cryptographic. The algorithm is FNV-1a (64-bit), which needs no
//! dependency and is stable across hosts. Stability is the contract: the digest
//! of a given byte stream never changes between builds or platforms.

use vstd::prelude::*;

verus! {

/// FNV-1a 64-bit offset basis.
pub const OFFSET_BASIS: u64 = 0xcbf2_9ce4_8422_2325;

/// FNV-1a 64-bit prime.
pub const PRIME: u64 = 0x0000_0100_0000_01b3;

/// One FNV-1a step: xor the byte into the state, then multiply by the prime modulo 2^64.
pub open spec fn fnv_step(h: u64, b: u8) -> u64 {
    (((h ^ (b as u64)) as nat * PRIME as nat) % 0x1_0000_0000_0000_0000nat) as u64
}

/// FNV-1a state after absorbing `bytes`, in order, starting from state `h`.
pub open spec fn fnv_fold(h: u64, bytes: Seq<u8>) -> u64
    decreases bytes.len(),
{
    if bytes.len() == 0 {
        h
    } else {
        fnv_step(fnv_fold(h, bytes.drop_last()), bytes.last())
    }
}

/// Little-endian bytes of a 16-bit value.
pub open spec fn le_bytes_u16(v: u16) -> Seq<u8> {
    seq![(v & 0xff) as u8, (v >> 8u16) as u8]
}

/// Little-endian bytes of a 32-bit value.
pub open spec fn le_bytes_u32(v: u32) -> Seq<u8> {
    seq![(v & 0xff) as u8, ((v >> 8u32) & 0xff) as u8, ((v >> 16u32) & 0xff) as u8, (v >> 24u32) as u8]
}

/// Little-endian bytes of a 64-bit value.
pub open spec fn le_bytes_u64(v: u64) -> Seq<u8> {
    seq![
        (v & 0xff) as u8,
        ((v >> 8u64) & 0xff) as u8,
        ((v >> 16u64) & 0xff) as u8,
        ((v >> 24u64) & 0xff) as u8,
        ((v >> 32u64) & 0xff) as u8,
        ((v >> 40u64) & 0xff) as u8,
        ((v >> 48u64) & 0xff) as u8,
        (v >> 56u64) as u8,
    ]
}

/// Concatenated little-endian bytes of a sequence of 16-bit values.
pub open spec fn le_bytes_u16_seq(values: Seq<u16>) -> Seq<u8>
    decreases values.len(),
{
    if values.len() == 0 {
        Seq::empty()
    } else {
        le_bytes_u16_seq(values.drop_last()) + le_bytes_u16(values.last())
    }
}

/// Absorbing `a` then `b` is the same as absorbing `a + b`.
pub proof fn lemma_fnv_fold_concat(h: u64, a: Seq<u8>, b: Seq<u8>)
    ensures
        fnv_fold(fnv_fold(h, a), b) == fnv_fold(h, a + b),
    decreases b.len(),
{
    if b.len() == 0 {
        assert(a + b =~= a);
    } else {
        lemma_fnv_fold_concat(h, a, b.drop_last());
        assert((a + b).drop_last() =~= a + b.drop_last());
        assert((a + b).last() == b.last());
    }
}

/// Incremental FNV-1a 64-bit digest.
///
/// Field order matters: callers feed a fixed sequence.
#[derive(Debug, Clone, Copy)]
pub struct StateDigest {
    value: u64,
}

impl View for StateDigest {
    type V = u64;

    closed spec fn view(&self) -> u64 {
        self.value
    }
}

impl Default for StateDigest {
    fn default() -> (r: Self)
        ensures
            r@ == OFFSET_BASIS,
    {
        Self::new()
    }
}

impl StateDigest {
    /// Start a new digest.
    pub fn new() -> (r: Self)
        ensures
            r@ == OFFSET_BASIS,
    {
        Self { value: OFFSET_BASIS }
    }

    fn absorb(&mut self, b: u8)
        ensures
            final(self)@ == fnv_step(old(self)@, b),
    {
        self.value = (self.value ^ (b as u64)).wrapping_mul(PRIME);
    }

    /// Absorb raw bytes.
    pub fn write_bytes(&mut self, bytes: &[u8])
        ensures
            final(self)@ == fnv_fold(old(self)@, bytes@),
    {
        let mut index: usize = 0;
        while index < bytes.len()
            invariant
                0 <= index <= bytes@.len(),
                self@ == fnv_fold(old(self)@, bytes@.subrange(0, index as int)),
            decreases bytes@.len() - index,
        {
            self.absorb(bytes[index]);
            assert(bytes@.subrange(0, index + 1).drop_last() =~= bytes@.subrange(0, index as int));
            index += 1;
        }
        assert(bytes@.subrange(0, bytes@.len() as int) =~= bytes@);
    }

    /// Absorb a 16-bit value in little-endian order.
    pub fn write_u16(&mut self, value: u16)
        ensures
            final(self)@ == fnv_fold(old(self)@, le_bytes_u16(value)),
    {
        let bytes: [u8; 2] = [(value & 0xff) as u8, (value >> 8) as u8];
        assert(bytes@ =~= le_bytes_u16(value));
        self.write_bytes(&bytes);
    }

    /// Absorb a 32-bit value in little-endian order.
    pub fn write_u32(&mut self, value: u32)
        ensures
            final(self)@ == fnv_fold(old(self)@, le_bytes_u32(value)),
    {
        let bytes: [u8; 4] = [
            (value & 0xff) as u8,
            ((value >> 8) & 0xff) as u8,
            ((value >> 16) & 0xff) as u8,
            (value >> 24) as u8,
        ];
        assert(bytes@ =~= le_bytes_u32(value));
        self.write_bytes(&bytes);
    }

    /// Absorb a 64-bit value in little-endian order.
    pub fn write_u64(&mut self, value: u64)
        ensures
            final(self)@ == fnv_fold(old(self)@, le_bytes_u64(value)),
    {
        let bytes: [u8; 8] = [
            (value & 0xff) as u8,
            ((value >> 8) & 0xff) as u8,
            ((value >> 16) & 0xff) as u8,
            ((value >> 24) & 0xff) as u8,
            ((value >> 32) & 0xff) as u8,
            ((value >> 40) & 0xff) as u8,
            ((value >> 48) & 0xff) as u8,
            (value >> 56) as u8,
        ];
        assert(bytes@ =~= le_bytes_u64(value));
        self.write_bytes(&bytes);
    }

    /// Absorb a sequence of 16-bit values, each in little-endian order.
    pub fn write_u16_slice(&mut self, values: &[u16])
        ensures
            final(self)@ == fnv_fold(old(self)@, le_bytes_u16_seq(values@)),
    {
        let mut index: usize = 0;
        while index < values.len()
            invariant
                0 <= index <= values@.len(),
                self@ == fnv_fold(old(self)@, le_bytes_u16_seq(values@.subrange(0, index as int))),
            decreases values@.len() - index,
        {
            let ghost before = self@;
            self.write_u16(values[index]);
            proof {
                let pre = values@.subrange(0, index as int);
                let post = values@.subrange(0, index + 1);
                assert(post.drop_last() =~= pre);
                lemma_fnv_fold_concat(old(self)@, le_bytes_u16_seq(pre), le_bytes_u16(values@[index as int]));
            }
            index += 1;
        }
        assert(values@.subrange(0, values@.len() as int) =~= values@);
    }

    /// Finish and return the digest.
    pub fn finish(self) -> (r: u64)
        ensures
            r == self@,
    {
        self.value
    }
}

/// Facts of byte arithmetic: the bytes of a 16-bit value by division, and
/// when a 32-bit value's bytes repeat a 16-bit value's in both halves.
proof fn lemma_le_byte_facts()
    by (bit_vector)
    ensures
        forall|v: u16| #[trigger] ((v & 0xff) as u8) == (v % 256) as u8 && (v >> 8u16) as u8 == (v / 256) as u8,
        forall|v: u16, w: u32|
            #![trigger (v & 0xff) as u8, (w & 0xff) as u8]
            ((v & 0xff) as u8 == (w & 0xff) as u8 && (v >> 8u16) as u8 == ((w >> 8u32) & 0xff) as u8 && (w & 0xff) as u8
                == ((w >> 16u32) & 0xff) as u8 && ((w >> 8u32) & 0xff) as u8 == (w >> 24u32) as u8) <==> w == v as u32
                * 0x10001,
{
}

/// A 16-bit write digests the value's little-endian bytes, exactly what
/// `to_le_bytes` gives: the low byte, then the high byte.
pub proof fn law_u16_digests_le_bytes(h: u64, v: u16)
    ensures
        le_bytes_u16(v) == seq![(v % 256) as u8, (v / 256) as u8],
        fnv_fold(h, le_bytes_u16(v)) == fnv_fold(h, seq![(v % 256) as u8, (v / 256) as u8]),
{
    lemma_le_byte_facts();
    assert((v & 0xff) as u8 == (v % 256) as u8 && (v >> 8u16) as u8 == (v / 256) as u8);
    assert(le_bytes_u16(v) =~= seq![(v % 256) as u8, (v / 256) as u8]);
}

/// The width of a write is digested: a value written as 16 bits feeds two
/// bytes, as 32 bits four, so the digest inputs differ.
pub proof fn law_width_changes_digested_bytes(v: u16)
    ensures
        le_bytes_u16(v) != le_bytes_u32(v as u32),
{
    assert(le_bytes_u16(v).len() != le_bytes_u32(v as u32).len());
}

/// The order of writes is digested: writing a 16-bit `v` then a 32-bit `w`
/// feeds different bytes from writing `w` then `v`, except when `w` repeats
/// `v` in both halves (`w == v * 0x10001`), where the six bytes coincide.
pub proof fn law_order_changes_digested_bytes(v: u16, w: u32)
    ensures
        (le_bytes_u16(v) + le_bytes_u32(w) == le_bytes_u32(w) + le_bytes_u16(v)) <==> w == v as u32 * 0x10001,
{
    let a = le_bytes_u16(v) + le_bytes_u32(w);
    let b = le_bytes_u32(w) + le_bytes_u16(v);
    lemma_le_byte_facts();
    if a == b {
        assert(a[0] == b[0] && a[1] == b[1] && a[2] == b[2] && a[3] == b[3] && a[4] == b[4] && a[5] == b[5]);
    }
    if w == v as u32 * 0x10001 {
        assert(a =~= b);
    }
}

} // verus!
