//! The bus the CPU core reads and writes through.

use vstd::prelude::*;

verus! {

/// Kind of bus-level fault during a memory access (distinct from 68000 address error).
#[derive(Clone, Copy, Debug, PartialEq, Eq, Structural)]
pub enum BusFaultKind {
    /// Generic bus error (unmapped address, device error, etc).
    BusError,
}

/// A bus-level fault that occurred during a memory access.
#[derive(Clone, Copy, Debug, PartialEq, Eq, Structural)]
pub struct BusFault {
    pub kind: BusFaultKind,
    pub address: u32,
}

/// The memory system as seen by the CPU core. Machines implement it, and
/// each implementation says, through the relations below, what its accesses
/// read and how they change it; the core states its own bus traffic in their
/// terms. An implementation that keeps the default relations promises
/// nothing: any value and any state after an access are then possible.
pub trait AddressBus: Sized {
    /// Whether a byte read at `address` may give `value` and leave the bus
    /// as `after`.
    open spec fn byte_read(&self, address: u32, after: Self, value: u8) -> bool {
        true
    }

    /// Whether a word read at `address` may give `value` and leave the bus
    /// as `after`.
    open spec fn word_read(&self, address: u32, after: Self, value: u16) -> bool {
        true
    }

    /// Whether a long read at `address` may give `value` and leave the bus
    /// as `after`.
    open spec fn long_read(&self, address: u32, after: Self, value: u32) -> bool {
        true
    }

    /// Whether writing byte `value` at `address` may leave the bus as `after`.
    open spec fn byte_written(&self, address: u32, value: u8, after: Self) -> bool {
        true
    }

    /// Whether writing word `value` at `address` may leave the bus as `after`.
    open spec fn word_written(&self, address: u32, value: u16, after: Self) -> bool {
        true
    }

    /// Whether writing long `value` at `address` may leave the bus as `after`.
    open spec fn long_written(&self, address: u32, value: u32, after: Self) -> bool {
        true
    }

    fn read_byte(&mut self, address: u32) -> (r: u8)
        ensures
            old(self).byte_read(address, *final(self), r),
    ;

    fn read_word(&mut self, address: u32) -> (r: u16)
        ensures
            old(self).word_read(address, *final(self), r),
    ;

    fn read_long(&mut self, address: u32) -> (r: u32)
        ensures
            old(self).long_read(address, *final(self), r),
    ;

    fn write_byte(&mut self, address: u32, value: u8)
        ensures
            old(self).byte_written(address, value, *final(self)),
    ;

    fn write_word(&mut self, address: u32, value: u16)
        ensures
            old(self).word_written(address, value, *final(self)),
    ;

    fn write_long(&mut self, address: u32, value: u32)
        ensures
            old(self).long_written(address, value, *final(self)),
    ;

    /// Fallible read used to surface bus faults to the CPU core; by default it
    /// cannot fail. A read that succeeds is a read of the bus; after a fault
    /// nothing is promised of the bus.
    fn try_read_byte(&mut self, address: u32) -> (r: Result<u8, BusFault>)
        ensures
            r matches Ok(v) ==> old(self).byte_read(address, *final(self), v),
    {
        Ok(self.read_byte(address))
    }

    fn try_read_word(&mut self, address: u32) -> (r: Result<u16, BusFault>)
        ensures
            r matches Ok(v) ==> old(self).word_read(address, *final(self), v),
    {
        Ok(self.read_word(address))
    }

    fn try_read_long(&mut self, address: u32) -> (r: Result<u32, BusFault>)
        ensures
            r matches Ok(v) ==> old(self).long_read(address, *final(self), v),
    {
        Ok(self.read_long(address))
    }

    fn try_write_byte(&mut self, address: u32, value: u8) -> (r: Result<(), BusFault>)
        ensures
            r is Ok ==> old(self).byte_written(address, value, *final(self)),
    {
        self.write_byte(address, value);
        Ok(())
    }

    fn try_write_word(&mut self, address: u32, value: u16) -> (r: Result<(), BusFault>)
        ensures
            r is Ok ==> old(self).word_written(address, value, *final(self)),
    {
        self.write_word(address, value);
        Ok(())
    }

    fn try_write_long(&mut self, address: u32, value: u32) -> (r: Result<(), BusFault>)
        ensures
            r is Ok ==> old(self).long_written(address, value, *final(self)),
    {
        self.write_long(address, value);
        Ok(())
    }

    /// An instruction-stream word read; by default a data word read.
    fn read_immediate_word(&mut self, address: u32) -> (r: u16)
        ensures
            old(self).word_read(address, *final(self), r),
    {
        self.read_word(address)
    }

    /// An instruction-stream long read; by default a data long read.
    fn read_immediate_long(&mut self, address: u32) -> (r: u32)
        ensures
            old(self).long_read(address, *final(self), r),
    {
        self.read_long(address)
    }

    fn interrupt_acknowledge(&mut self, level: u8) -> u32 {
        0xFFFF_FFFF
    }

    fn reset_devices(&mut self) {
    }
}

} // verus!
