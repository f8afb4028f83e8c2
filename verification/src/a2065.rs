//! Commodore A2065-compatible Zorro II Ethernet card: autoconfig, the board
//! RAM aperture, and the LANCE register shell with its descriptor rings.

use std::collections::VecDeque;

use vstd::prelude::*;

use crate::network::{MacAddress, NetworkCounters, lemma_mac_len};

verus! {

/// A2065 Zorro II autoconfig window base.
pub const A2065_AUTOCONFIG_BASE: u32 = 0x00E8_0000;
/// A2065 board aperture size.
pub const A2065_BOARD_SIZE: u32 = 0x0001_0000;
/// A2065 Zorro II autoconfig window end.
pub const A2065_AUTOCONFIG_END: u32 = A2065_AUTOCONFIG_BASE + A2065_BOARD_SIZE;

/// Offset of the LANCE registers in the board aperture.
pub const A2065_CHIP_OFFSET: u32 = 0x4000;
/// LANCE register data port.
pub const A2065_RDP: u32 = A2065_CHIP_OFFSET;
/// LANCE register address port.
pub const A2065_RAP: u32 = A2065_CHIP_OFFSET + 2;
/// Offset of the board RAM in the aperture.
pub const RAM_OFFSET: u32 = 0x8000;
/// Board RAM size.
pub const RAM_SIZE: usize = 0x8000;
/// Number of LANCE control/status registers.
pub const RAP_SIZE: usize = 128;
/// Register address bits the RAP keeps.
pub const RAP_MASK: u16 = 0x0003;

pub const CSR0_ERR: u16 = 0x8000;
pub const CSR0_BABL: u16 = 0x4000;
pub const CSR0_CERR: u16 = 0x2000;
pub const CSR0_MISS: u16 = 0x1000;
pub const CSR0_MERR: u16 = 0x0800;
pub const CSR0_RINT: u16 = 0x0400;
pub const CSR0_TINT: u16 = 0x0200;
pub const CSR0_IDON: u16 = 0x0100;
pub const CSR0_INTR: u16 = 0x0080;
pub const CSR0_INEA: u16 = 0x0040;
pub const CSR0_RXON: u16 = 0x0020;
pub const CSR0_TXON: u16 = 0x0010;
pub const CSR0_TDMD: u16 = 0x0008;
pub const CSR0_STOP: u16 = 0x0004;
pub const CSR0_STRT: u16 = 0x0002;
pub const CSR0_INIT: u16 = 0x0001;

/// Interrupt-causing CSR0 events: BABL, CERR, MISS, MERR, RINT, TINT, IDON.
pub const CSR0_EVENTS: u16 = 0x7F00;
/// CSR0 error summary sources: BABL, CERR, MISS, MERR.
pub const CSR0_ERRORS: u16 = 0x7800;

pub const MODE_PROM: u16 = 0x8000;
pub const MODE_DTCR: u16 = 0x0008;
pub const MODE_DTX: u16 = 0x0002;
pub const MODE_DRX: u16 = 0x0001;

pub const TX_OWN: u16 = 0x8000;
pub const TX_ERR: u16 = 0x4000;
pub const TX_MORE: u16 = 0x1000;
pub const TX_ONE: u16 = 0x0800;
pub const TX_DEF: u16 = 0x0400;
pub const TX_STP: u16 = 0x0200;
pub const TX_ENP: u16 = 0x0100;
pub const TX_UFLO: u16 = 0x4000;

pub const RX_OWN: u16 = 0x8000;
pub const RX_ERR: u16 = 0x4000;
pub const RX_OFLO: u16 = 0x1000;
pub const RX_BUFF: u16 = 0x0400;
pub const RX_STP: u16 = 0x0200;
pub const RX_ENP: u16 = 0x0100;

/// Largest frame gathered from the transmit ring.
pub const MAX_PACKET_SIZE: usize = 4_000;
/// Smallest Ethernet frame without its check sequence.
pub const ETHERNET_MIN_FRAME_SIZE: usize = 60;
/// Ethernet frame check sequence size.
pub const ETHERNET_FCS_SIZE: usize = 4;

/// Runtime status for evidence manifests and API diagnostics.
#[derive(Clone, Copy, Debug, PartialEq, Eq)]
pub struct A2065Status {
    /// Whether the card is present in the machine.
    pub enabled: bool,
    /// Whether Kickstart has configured the board aperture.
    pub configured: bool,
    /// Whether the autoconfig chain has been shut up instead of mapped.
    pub shut_up: bool,
    /// Configured board base address, when mapped.
    pub base_address: Option<u32>,
    /// Emulated A2065 station MAC address.
    pub mac_address: MacAddress,
    /// Whether the host backend currently reports link-up.
    pub link_up: bool,
    /// Packet counters for diagnostics.
    pub counters: NetworkCounters,
}

/// A LANCE ring descriptor: buffer address, flags with the address's high
/// byte, negated buffer length, and status.
#[derive(Clone, Copy, Debug)]
pub struct Descriptor {
    pub address_low: u16,
    pub flags: u16,
    pub length: u16,
    pub status: u16,
}

/// A2065-compatible device with Zorro II autoconfig, board RAM, and LANCE CSR shell.
#[derive(Clone, Debug)]
pub struct A2065 {
    enabled: bool,
    configured: bool,
    shut_up: bool,
    base_address: Option<u32>,
    map_hi: u8,
    map_lo: u8,
    mac_address: MacAddress,
    ram: Vec<u8>,
    csr: [u16; RAP_SIZE],
    rap: u16,
    initialized: bool,
    mode: u16,
    logical_address_filter: u64,
    receive_ring_addr: u32,
    receive_ring_len: usize,
    transmit_ring_addr: u32,
    transmit_ring_len: usize,
    receive_ring_offset: usize,
    transmit_ring_offset: usize,
    loopback_enabled: bool,
    transmitted_frames: VecDeque<Vec<u8>>,
    pending_receive_frames: VecDeque<Vec<u8>>,
    link_up: bool,
    counters: NetworkCounters,
}

/// Abstract state of the card.
pub struct A2065View {
    pub enabled: bool,
    pub configured: bool,
    pub shut_up: bool,
    pub base_address: Option<u32>,
    pub map_hi: u8,
    pub map_lo: u8,
    pub mac: Seq<u8>,
    pub ram: Seq<u8>,
    pub csr: Seq<u16>,
    pub rap: u16,
    pub initialized: bool,
    pub mode: u16,
    pub laf: u64,
    pub rx_addr: u32,
    pub rx_len: usize,
    pub tx_addr: u32,
    pub tx_len: usize,
    pub rx_off: usize,
    pub tx_off: usize,
    pub loopback: bool,
    pub transmitted: Seq<Seq<u8>>,
    pub pending: Seq<Seq<u8>>,
    pub link_up: bool,
    pub counters: NetworkCounters,
}

/// The frames held by a queue of byte vectors.
pub open spec fn spec_frames(q: Seq<Vec<u8>>) -> Seq<Seq<u8>> {
    Seq::new(q.len(), |i: int| q[i]@)
}

impl View for A2065 {
    type V = A2065View;

    closed spec fn view(&self) -> A2065View {
        A2065View {
            enabled: self.enabled,
            configured: self.configured,
            shut_up: self.shut_up,
            base_address: self.base_address,
            map_hi: self.map_hi,
            map_lo: self.map_lo,
            mac: self.mac_address@,
            ram: self.ram@,
            csr: self.csr@,
            rap: self.rap,
            initialized: self.initialized,
            mode: self.mode,
            laf: self.logical_address_filter,
            rx_addr: self.receive_ring_addr,
            rx_len: self.receive_ring_len,
            tx_addr: self.transmit_ring_addr,
            tx_len: self.transmit_ring_len,
            rx_off: self.receive_ring_offset,
            tx_off: self.transmit_ring_offset,
            loopback: self.loopback_enabled,
            transmitted: spec_frames(self.transmitted_frames@),
            pending: spec_frames(self.pending_receive_frames@),
            link_up: self.link_up,
            counters: self.counters,
        }
    }
}

/// The card invariant: 32 KiB of board RAM, 128 registers, a two-bit register
/// address, rings of at most 128 descriptors inside board RAM, and ring
/// positions inside their rings.
pub open spec fn spec_card_wf(v: A2065View) -> bool {
    &&& v.ram.len() == RAM_SIZE
    &&& v.csr.len() == RAP_SIZE
    &&& v.mac.len() == 6
    &&& v.rap < 4
    &&& v.rx_len <= 128 && v.tx_len <= 128
    &&& v.rx_addr < 0x8000 && v.tx_addr < 0x8000
    &&& v.rx_off < (if v.rx_len == 0 { 1 } else { v.rx_len })
    &&& v.tx_off < (if v.tx_len == 0 { 1 } else { v.tx_len })
    &&& (v.base_address matches Some(b) ==> b <= 0x00FF_0000)
}

/// A counter incremented, saturating.
pub open spec fn spec_sat_inc(x: u64) -> u64 {
    if x == u64::MAX { x } else { (x + 1) as u64 }
}

/// CSR0 with its interrupt summary recomputed: INTR set when interrupts are
/// enabled and an interrupt event is pending.
pub open spec fn spec_with_intr(csr0: u16) -> u16 {
    let c = csr0 & !CSR0_INTR;
    if c & CSR0_INEA != 0 && c & CSR0_EVENTS != 0 { c | CSR0_INTR } else { c }
}

/// The card with CSR0 replaced.
pub open spec fn spec_set_csr0(v: A2065View, x: u16) -> A2065View {
    A2065View { csr: v.csr.update(0, x), ..v }
}

/// The card with its interrupt summary recomputed.
pub open spec fn spec_refresh(v: A2065View) -> A2065View {
    spec_set_csr0(v, spec_with_intr(v.csr[0]))
}

/// Byte of board RAM at `off` (wrapping within the 32 KiB).
pub open spec fn spec_ram_byte(ram: Seq<u8>, off: int) -> u8 {
    ram[off % 0x8000]
}

/// Big-endian word of board RAM at `off`.
pub open spec fn spec_ram_word(ram: Seq<u8>, off: int) -> u16 {
    (spec_ram_byte(ram, off) as int * 256 + spec_ram_byte(ram, off + 1) as int) as u16
}

/// Board RAM with the byte at `off` replaced.
pub open spec fn spec_put_byte(ram: Seq<u8>, off: int, b: u8) -> Seq<u8> {
    ram.update(off % 0x8000, b)
}

/// Board RAM with the big-endian word at `off` replaced.
pub open spec fn spec_put_word(ram: Seq<u8>, off: int, w: u16) -> Seq<u8> {
    spec_put_byte(spec_put_byte(ram, off, (w / 256) as u8), off + 1, (w % 256) as u8)
}

/// The descriptor stored at `off`.
pub open spec fn spec_desc(ram: Seq<u8>, off: int) -> Descriptor {
    Descriptor {
        address_low: spec_ram_word(ram, off),
        flags: spec_ram_word(ram, off + 2),
        length: spec_ram_word(ram, off + 4),
        status: spec_ram_word(ram, off + 6),
    }
}

/// Board RAM with descriptor `d` stored at `off`.
pub open spec fn spec_put_desc(ram: Seq<u8>, off: int, d: Descriptor) -> Seq<u8> {
    spec_put_word(
        spec_put_word(spec_put_word(spec_put_word(ram, off, d.address_low), off + 2, d.flags), off + 4, d.length),
        off + 6,
        d.status,
    )
}

/// Board RAM offset of a descriptor's buffer.
pub open spec fn spec_buffer_addr(d: Descriptor) -> u32 {
    ((d.address_low as u32) | (((d.flags & 0x00FF) as u32) << 16u32)) & 0x7FFF
}

/// Buffer length of a descriptor: the two's complement of its length field.
pub open spec fn spec_buffer_len(d: Descriptor) -> int {
    ((0x1_0000 - d.length as int) % 0x1_0000)
}

/// One bit step of the reflected CRC-32 (polynomial `$EDB88320`).
pub open spec fn spec_crc_bit(crc: u32) -> u32 {
    (crc >> 1u32) ^ (0xEDB8_8320u32 & (if crc & 1 == 1 { 0xFFFF_FFFFu32 } else { 0u32 }))
}

/// `k` bit steps of the CRC.
pub open spec fn spec_crc_bits(crc: u32, k: nat) -> u32
    decreases k,
{
    if k == 0 { crc } else { spec_crc_bit(spec_crc_bits(crc, (k - 1) as nat)) }
}

/// The CRC register after the bytes of `data`, from `init`.
pub open spec fn spec_crc_fold(init: u32, data: Seq<u8>) -> u32
    decreases data.len(),
{
    if data.len() == 0 {
        init
    } else {
        spec_crc_bits(spec_crc_fold(init, data.drop_last()) ^ (data.last() as u32), 8)
    }
}

/// The Ethernet frame check sequence of `frame`, most significant byte first.
pub open spec fn spec_fcs(frame: Seq<u8>) -> Seq<u8> {
    let c = !spec_crc_fold(0xFFFF_FFFF, frame);
    seq![(c >> 24u32) as u8, (c >> 16u32) as u8, (c >> 8u32) as u8, c as u8]
}

/// Whether the card takes a frame from the wire: at least an Ethernet header,
/// and either promiscuous mode, loopback, its own address, broadcast, or a
/// multicast address while the logical address filter is set.
pub open spec fn spec_accepts(v: A2065View, frame: Seq<u8>) -> bool {
    if frame.len() < 14 {
        false
    } else if v.mode & MODE_PROM != 0 || v.loopback {
        true
    } else {
        let dest = frame.subrange(0, 6);
        dest == v.mac || dest == seq![0xFFu8, 0xFF, 0xFF, 0xFF, 0xFF, 0xFF] || (frame[0] & 1 != 0 && v.laf != 0)
    }
}


/// Board RAM with `bytes` stored one after another from `base`, wrapping
/// within the 32 KiB.
pub open spec fn spec_copy_to_ram(ram: Seq<u8>, base: int, bytes: Seq<u8>) -> Seq<u8>
    decreases bytes.len(),
{
    if bytes.len() == 0 {
        ram
    } else {
        spec_put_byte(spec_copy_to_ram(ram, base, bytes.drop_last()), base + bytes.len() - 1, bytes.last())
    }
}

/// The card with its receive ring advanced by one descriptor.
pub open spec fn spec_advance_rx(v: A2065View) -> A2065View {
    A2065View { rx_off: ((v.rx_off + 1) % (if v.rx_len == 0 { 1 } else { v.rx_len as int })) as usize, ..v }
}

/// The card with its transmit ring advanced by one descriptor.
pub open spec fn spec_advance_tx(v: A2065View) -> A2065View {
    A2065View { tx_off: ((v.tx_off + 1) % (if v.tx_len == 0 { 1 } else { v.tx_len as int })) as usize, ..v }
}

/// Board RAM offset of the current receive descriptor.
pub open spec fn spec_rx_desc_addr(v: A2065View) -> int {
    v.rx_addr as int + v.rx_off as int * 8
}

/// Board RAM offset of the current transmit descriptor.
pub open spec fn spec_tx_desc_addr(v: A2065View) -> int {
    v.tx_addr as int + v.tx_off as int * 8
}

/// One receive descriptor's worth of storing `data` from byte `written` on:
/// the card state, whether storing stops here, whether the frame fit, and the
/// bytes written so far. A descriptor the card does not own is a miss (before
/// any data) or an overflow that stops the receiver; an owned one takes as
/// much as its buffer holds, gets STP when it is the first and ENP with the
/// total length when it is the last, and is handed back.
#[verifier::opaque]
pub open spec fn spec_rx_step(v: A2065View, data: Seq<u8>, written: int, first: bool) -> (A2065View, bool, bool, int) {
    let addr = spec_rx_desc_addr(v);
    let desc = spec_desc(v.ram, addr);
    if desc.flags & RX_OWN == 0 {
        if first {
            (spec_set_csr0(v, v.csr[0] | CSR0_MISS), true, false, written)
        } else {
            let d2 = Descriptor { flags: desc.flags | RX_ERR | RX_BUFF, status: desc.status | RX_OFLO, ..desc };
            (
                A2065View { csr: v.csr.update(0, v.csr[0] & !CSR0_RXON), ram: spec_put_desc(v.ram, addr, d2), ..v },
                true,
                false,
                written,
            )
        }
    } else {
        let f1 = desc.flags & !RX_OWN;
        let f2 = if first { f1 | RX_STP } else { f1 };
        let remaining = if data.len() > written { data.len() - written } else { 0 };
        let size = spec_buffer_len(desc);
        let n = if size < remaining { size } else { remaining };
        let ram1 = spec_copy_to_ram(v.ram, spec_buffer_addr(desc) as int, data.subrange(written, written + n));
        let w2 = written + n;
        let done = w2 >= data.len();
        let d2 = Descriptor {
            flags: if done { f2 | RX_ENP } else { f2 },
            status: if done {
                if data.len() <= 0xFFFF { data.len() as u16 } else { 0xFFFF }
            } else {
                desc.status
            },
            ..desc
        };
        (spec_advance_rx(A2065View { ram: spec_put_desc(ram1, addr, d2), ..v }), done, done, w2)
    }
}

/// Store `data` (from byte `written` on) through at most `k` receive
/// descriptors; running out of descriptors is a miss. Returns whether the
/// frame fit.
pub open spec fn spec_rx_loop(v: A2065View, data: Seq<u8>, written: int, first: bool, k: nat) -> (A2065View, bool)
    decreases k,
{
    if k == 0 {
        (spec_set_csr0(v, v.csr[0] | CSR0_MISS), false)
    } else {
        let s = spec_rx_step(v, data, written, first);
        if s.1 {
            (s.0, s.2)
        } else {
            spec_rx_loop(s.0, data, s.3, false, (k - 1) as nat)
        }
    }
}

/// The bytes the card stores for a received frame: the frame, followed by
/// its frame check sequence unless the mode disables it.
pub open spec fn spec_rx_data(v: A2065View, frame: Seq<u8>) -> Seq<u8> {
    if v.mode & MODE_DTCR == 0 { frame + spec_fcs(frame) } else { frame }
}

/// Store a received frame into the receive ring.
pub open spec fn spec_write_receive(v: A2065View, frame: Seq<u8>) -> (A2065View, bool) {
    spec_rx_loop(v, spec_rx_data(v, frame), 0, true, v.rx_len as nat)
}

/// Deliver one frame taken from the queue: a frame the card does not accept
/// is dropped; a stored frame raises RINT; one that does not fit is dropped
/// and ends delivery. Returns the card and whether delivery goes on.
pub open spec fn spec_rx_deliver(v: A2065View, frame: Seq<u8>) -> (A2065View, bool) {
    if !spec_accepts(v, frame) {
        (
            A2065View {
                counters: NetworkCounters { dropped_packets: spec_sat_inc(v.counters.dropped_packets), ..v.counters },
                ..v
            },
            true,
        )
    } else {
        let r = spec_write_receive(v, frame);
        if r.1 {
            let v2 = A2065View {
                counters: NetworkCounters { rx_packets: spec_sat_inc(r.0.counters.rx_packets), ..r.0.counters },
                ..spec_set_csr0(r.0, r.0.csr[0] | CSR0_RINT)
            };
            (spec_refresh(v2), true)
        } else {
            (
                spec_refresh(
                    A2065View {
                        counters: NetworkCounters {
                            dropped_packets: spec_sat_inc(r.0.counters.dropped_packets),
                            ..r.0.counters
                        },
                        ..r.0
                    },
                ),
                false,
            )
        }
    }
}

/// Deliver queued frames in order until the queue is empty or a frame does
/// not fit.
pub open spec fn spec_rx_drain(v: A2065View) -> A2065View
    decreases v.pending.len(),
{
    if v.pending.len() == 0 {
        v
    } else {
        let rest = v.pending.drop_first();
        let r = spec_rx_deliver(A2065View { pending: rest, ..v }, v.pending[0]);
        if r.1 {
            spec_rx_drain(A2065View { pending: rest, ..r.0 })
        } else {
            r.0
        }
    }
}

/// Deliver queued frames when the receiver is initialized, running, and has a ring.
pub open spec fn spec_service_receive(v: A2065View) -> A2065View {
    if !v.initialized || v.rx_len == 0 || v.csr[0] & CSR0_RXON == 0 || v.pending.len() == 0 {
        v
    } else {
        spec_rx_drain(v)
    }
}

/// One transmit descriptor's worth of gathering: the card, the frame so far,
/// whether gathering stops here, and (when it ends the frame) the offset and
/// final state of the last descriptor. A descriptor the card does not own is
/// an underflow error that stops the transmitter; an owned one contributes
/// its buffer (up to the packet size limit) and is handed back.
#[verifier::opaque]
pub open spec fn spec_tx_gather_step(v: A2065View, frame: Seq<u8>) -> (A2065View, Seq<u8>, bool, Option<(int, Descriptor)>) {
    let addr = spec_tx_desc_addr(v);
    let desc = spec_desc(v.ram, addr);
    if desc.flags & TX_OWN == 0 {
        let d2 = Descriptor { flags: desc.flags | TX_ERR, status: desc.status | TX_UFLO, ..desc };
        (
            spec_refresh(
                A2065View {
                    ram: spec_put_desc(v.ram, addr, d2),
                    csr: v.csr.update(0, (v.csr[0] & !CSR0_TXON) | CSR0_TINT),
                    ..v
                },
            ),
            frame,
            true,
            None,
        )
    } else {
        let room = if frame.len() < MAX_PACKET_SIZE { MAX_PACKET_SIZE - frame.len() } else { 0 };
        let size = spec_buffer_len(desc);
        let n = if size < room { size } else { room };
        let base = spec_buffer_addr(desc) as int;
        let frame2 = frame + Seq::new(n as nat, |i: int| spec_ram_byte(v.ram, base + i));
        let d2 = Descriptor { flags: desc.flags & !TX_OWN, ..desc };
        let v2 = spec_advance_tx(A2065View { ram: spec_put_desc(v.ram, addr, d2), ..v });
        if d2.flags & TX_ENP != 0 {
            (v2, frame2, true, Some((addr, d2)))
        } else {
            (v2, frame2, false, None)
        }
    }
}

/// Gather a frame from at most `k` transmit descriptors, until one marked
/// ENP; returns the frame with the last descriptor and its offset. Running out
/// of descriptors drops the frame.
pub open spec fn spec_tx_gather(v: A2065View, frame: Seq<u8>, k: nat) -> (
    A2065View,
    Option<(Seq<u8>, int, Descriptor)>,
)
    decreases k,
{
    if k == 0 {
        (
            spec_refresh(
                A2065View {
                    counters: NetworkCounters {
                        dropped_packets: spec_sat_inc(v.counters.dropped_packets),
                        ..v.counters
                    },
                    ..spec_set_csr0(v, v.csr[0] | CSR0_TINT)
                },
            ),
            None,
        )
    } else {
        let s = spec_tx_gather_step(v, frame);
        if s.2 {
            (
                s.0,
                match s.3 {
                    Some(t) => Some((s.1, t.0, t.1)),
                    None => None,
                },
            )
        } else {
            spec_tx_gather(s.0, s.1, (k - 1) as nat)
        }
    }
}

/// Send the frame starting at the current transmit descriptor: gather it,
/// then either reject a runt frame with an underflow error, or hand it to the
/// host (and to the receiver in loopback) and raise TINT.
#[verifier::opaque]
pub open spec fn spec_tx_send(v: A2065View) -> A2065View {
    let g = spec_tx_gather(v, Seq::empty(), v.tx_len as nat);
    match g.1 {
        None => g.0,
        Some(t) => {
            let frame = t.0;
            let last_addr = t.1;
            let last = t.2;
            let v1 = g.0;
            if frame.len() < ETHERNET_MIN_FRAME_SIZE {
                let d2 = Descriptor { flags: (last.flags | TX_ERR) & !TX_OWN, status: last.status | TX_UFLO, ..last };
                spec_refresh(
                    A2065View {
                        ram: spec_put_desc(v1.ram, last_addr, d2),
                        csr: v1.csr.update(0, (v1.csr[0] & !CSR0_TXON) | CSR0_TINT),
                        counters: NetworkCounters {
                            dropped_packets: spec_sat_inc(v1.counters.dropped_packets),
                            ..v1.counters
                        },
                        ..v1
                    },
                )
            } else {
                let d2 = Descriptor {
                    flags: last.flags & !TX_OWN,
                    status: last.status & !(TX_UFLO | TX_DEF | TX_MORE | TX_ONE),
                    ..last
                };
                let v2 = A2065View {
                    transmitted: v1.transmitted.push(frame),
                    counters: NetworkCounters { tx_packets: spec_sat_inc(v1.counters.tx_packets), ..v1.counters },
                    pending: if v1.loopback { v1.pending.push(frame) } else { v1.pending },
                    csr: v1.csr.update(0, v1.csr[0] | CSR0_TINT),
                    ram: spec_put_desc(v1.ram, last_addr, d2),
                    ..v1
                };
                spec_refresh(spec_service_receive(v2))
            }
        },
    }
}

/// One step over the transmit ring: stop at a descriptor the card does not
/// own, skip one without STP, or send the frame that starts at it. Returns the
/// card and whether the search goes on.
#[verifier::opaque]
pub open spec fn spec_tx_ring_step(v: A2065View) -> (A2065View, bool) {
    let desc = spec_desc(v.ram, spec_tx_desc_addr(v));
    if desc.flags & TX_OWN == 0 {
        (v, false)
    } else if desc.flags & TX_STP == 0 {
        (spec_advance_tx(v), true)
    } else {
        (spec_tx_send(v), false)
    }
}

/// Transmit the next frame, looking at no more than `k` descriptors.
pub open spec fn spec_tx_loop(v: A2065View, k: nat) -> A2065View
    decreases k,
{
    if k == 0 {
        v
    } else {
        let s = spec_tx_ring_step(v);
        if s.1 {
            spec_tx_loop(s.0, (k - 1) as nat)
        } else {
            s.0
        }
    }
}

/// Service the transmit ring on a transmit demand while the transmitter runs.
pub open spec fn spec_service_transmit(v: A2065View, demand: bool) -> A2065View {
    if !demand || v.tx_len == 0 || v.csr[0] & CSR0_TXON == 0 {
        v
    } else {
        spec_tx_loop(v, v.tx_len as nat)
    }
}

/// The card after reading the initialization block addressed by CSR1/CSR2:
/// mode, logical address filter, and both descriptor rings.
pub open spec fn spec_initialize(v: A2065View) -> A2065View {
    let init_addr = (((v.csr[2] & 0x00FF) as u32) << 16u32) | (v.csr[1] as u32);
    let off = (init_addr % 0x8000) as int;
    let w = |k: int| spec_ram_word(v.ram, off + k);
    let rdesc = ((w(18) as u32) << 16u32) | (w(16) as u32);
    let tdesc = ((w(22) as u32) << 16u32) | (w(20) as u32);
    A2065View {
        mode: w(0),
        laf: ((w(14) as u64) << 48u64) | ((w(12) as u64) << 32u64) | ((w(10) as u64) << 16u64) | (w(8) as u64),
        rx_len: (1u32 << ((rdesc >> 29u32) & 7)) as usize,
        tx_len: (1u32 << ((tdesc >> 29u32) & 7)) as usize,
        rx_addr: (rdesc & 0x00FF_FFF8) % 0x8000,
        tx_addr: (tdesc & 0x00FF_FFF8) % 0x8000,
        rx_off: 0,
        tx_off: 0,
        initialized: true,
        ..v
    }
}


fn buffer_addr(d: Descriptor) -> (r: u32)
    ensures
        r == spec_buffer_addr(d),
        r < 0x8000,
{
    let lo = d.address_low as u32;
    let hi = (d.flags & 0x00FF) as u32;
    let r = (lo | (hi << 16)) & 0x7FFF;
    assert(r < 0x8000) by (bit_vector)
        requires
            r == (lo | (hi << 16u32)) & 0x7FFF,
    ;
    r
}

fn buffer_len(d: Descriptor) -> (r: usize)
    ensures
        r == spec_buffer_len(d),
{
    if d.length == 0 {
        0
    } else {
        (0x1_0000u32 - (d.length as u32)) as usize
    }
}

/// The Ethernet frame check sequence (CRC-32) of `frame`, most significant byte first.
fn ethernet_crc32(frame: &Vec<u8>) -> (r: Vec<u8>)
    ensures
        r@ == spec_fcs(frame@),
{
    let mut crc: u32 = 0xFFFF_FFFF;
    let mut i: usize = 0;
    while i < frame.len()
        invariant
            i <= frame@.len(),
            crc == spec_crc_fold(0xFFFF_FFFF, frame@.subrange(0, i as int)),
        decreases frame@.len() - i,
    {
        let ghost start = crc ^ (frame@[i as int] as u32);
        crc = crc ^ (frame[i] as u32);
        let mut bit: u32 = 0;
        while bit < 8
            invariant
                bit <= 8,
                crc == spec_crc_bits(start, bit as nat),
            decreases 8 - bit,
        {
            let mask: u32 = if crc & 1 == 1 { 0xFFFF_FFFF } else { 0 };
            crc = (crc >> 1) ^ (0xEDB8_8320 & mask);
            bit += 1;
        }
        proof {
            let p = frame@.subrange(0, i + 1);
            assert(p.drop_last() =~= frame@.subrange(0, i as int));
        }
        i += 1;
    }
    assert(frame@.subrange(0, frame@.len() as int) =~= frame@);
    let c = !crc;
    let r = vec![(c >> 24) as u8, (c >> 16) as u8, (c >> 8) as u8, c as u8];
    assert(r@ =~= spec_fcs(frame@));
    r
}

impl A2065 {
    fn read_ram_byte(&self, offset: u32) -> (r: u8)
        requires
            spec_card_wf(self@),
        ensures
            r == spec_ram_byte(self@.ram, offset as int),
    {
        self.ram[(offset % 0x8000) as usize]
    }

    fn read_ram_word(&self, offset: u32) -> (r: u16)
        requires
            spec_card_wf(self@),
            offset < 0x2_0000,
        ensures
            r == spec_ram_word(self@.ram, offset as int),
    {
        (self.read_ram_byte(offset) as u16) * 256 + (self.read_ram_byte(offset + 1) as u16)
    }

    fn write_ram_byte(&mut self, offset: u32, value: u8)
        requires
            spec_card_wf(old(self)@),
        ensures
            final(self)@ == (A2065View { ram: spec_put_byte(old(self)@.ram, offset as int, value), ..old(self)@ }),
            spec_card_wf(final(self)@),
    {
        self.ram.set((offset % 0x8000) as usize, value);
    }

    fn write_ram_word(&mut self, offset: u32, value: u16)
        requires
            spec_card_wf(old(self)@),
            offset < 0x2_0000,
        ensures
            final(self)@ == (A2065View { ram: spec_put_word(old(self)@.ram, offset as int, value), ..old(self)@ }),
            spec_card_wf(final(self)@),
    {
        self.write_ram_byte(offset, (value / 256) as u8);
        self.write_ram_byte(offset + 1, (value % 256) as u8);
    }

    fn read_desc(&self, offset: u32) -> (r: Descriptor)
        requires
            spec_card_wf(self@),
            offset < 0x1_0000,
        ensures
            r == spec_desc(self@.ram, offset as int),
    {
        Descriptor {
            address_low: self.read_ram_word(offset),
            flags: self.read_ram_word(offset + 2),
            length: self.read_ram_word(offset + 4),
            status: self.read_ram_word(offset + 6),
        }
    }

    fn write_desc(&mut self, offset: u32, d: Descriptor)
        requires
            spec_card_wf(old(self)@),
            offset < 0x1_0000,
        ensures
            final(self)@ == (A2065View { ram: spec_put_desc(old(self)@.ram, offset as int, d), ..old(self)@ }),
            spec_card_wf(final(self)@),
    {
        self.write_ram_word(offset, d.address_low);
        self.write_ram_word(offset + 2, d.flags);
        self.write_ram_word(offset + 4, d.length);
        self.write_ram_word(offset + 6, d.status);
    }

    fn set_csr0(&mut self, x: u16)
        requires
            spec_card_wf(old(self)@),
        ensures
            final(self)@ == spec_set_csr0(old(self)@, x),
            spec_card_wf(final(self)@),
    {
        self.csr[0] = x;
        proof {
            assert(self@.csr =~= old(self)@.csr.update(0, x));
        }
    }

    fn refresh_interrupt_summary(&mut self)
        requires
            spec_card_wf(old(self)@),
        ensures
            final(self)@ == spec_refresh(old(self)@),
            spec_card_wf(final(self)@),
    {
        let c = self.csr[0] & !CSR0_INTR;
        let x = if c & CSR0_INEA != 0 && c & CSR0_EVENTS != 0 { c | CSR0_INTR } else { c };
        self.set_csr0(x);
    }

    fn advance_receive_ring(&mut self)
        requires
            spec_card_wf(old(self)@),
        ensures
            final(self)@ == spec_advance_rx(old(self)@),
            spec_card_wf(final(self)@),
    {
        let n = if self.receive_ring_len == 0 { 1 } else { self.receive_ring_len };
        self.receive_ring_offset = (self.receive_ring_offset + 1) % n;
    }

    fn advance_transmit_ring(&mut self)
        requires
            spec_card_wf(old(self)@),
        ensures
            final(self)@ == spec_advance_tx(old(self)@),
            spec_card_wf(final(self)@),
    {
        let n = if self.transmit_ring_len == 0 { 1 } else { self.transmit_ring_len };
        self.transmit_ring_offset = (self.transmit_ring_offset + 1) % n;
    }

    fn accepts_receive_frame(&self, frame: &Vec<u8>) -> (r: bool)
        requires
            spec_card_wf(self@),
        ensures
            r == spec_accepts(self@, frame@),
    {
        if frame.len() < 14 {
            return false;
        }
        if self.mode & MODE_PROM != 0 || self.loopback_enabled {
            return true;
        }
        let mac = self.mac_address.octets();
        let mut own = true;
        let mut broadcast = true;
        let mut i: usize = 0;
        while i < 6
            invariant
                i <= 6,
                frame@.len() >= 14,
                mac@ == self@.mac,
                mac@.len() == 6,
                own == (forall|k: int| 0 <= k < i ==> frame@[k] == mac@[k]),
                broadcast == (forall|k: int| 0 <= k < i ==> frame@[k] == 0xFF),
            decreases 6 - i,
        {
            own = own && frame[i] == mac[i];
            broadcast = broadcast && frame[i] == 0xFF;
            i += 1;
        }
        proof {
            let dest = frame@.subrange(0, 6);
            if own {
                assert(dest =~= self@.mac);
            }
            if dest == self@.mac {
                assert forall|k: int| 0 <= k < 6 implies frame@[k] == mac@[k] by {
                    assert(dest[k] == frame@[k]);
                }
            }
            if broadcast {
                assert(dest =~= seq![0xFFu8, 0xFF, 0xFF, 0xFF, 0xFF, 0xFF]);
            }
            if dest == seq![0xFFu8, 0xFF, 0xFF, 0xFF, 0xFF, 0xFF] {
                assert forall|k: int| 0 <= k < 6 implies frame@[k] == 0xFF by {
                    assert(dest[k] == frame@[k]);
                }
            }
        }
        own || broadcast || (frame[0] & 0x01 != 0 && self.logical_address_filter != 0)
    }
}


impl A2065 {
    fn copy_to_ram(&mut self, base: u32, data: &Vec<u8>, from: usize, n: usize)
        requires
            spec_card_wf(old(self)@),
            base < 0x8000,
            n <= 0xFFFF,
            from + n <= data@.len(),
        ensures
            final(self)@ == (A2065View {
                ram: spec_copy_to_ram(old(self)@.ram, base as int, data@.subrange(from as int, from + n)),
                ..old(self)@
            }),
            spec_card_wf(final(self)@),
    {
        let dn = data.len();
        let mut i: usize = 0;
        while i < n
            invariant
                dn == data@.len(),
                i <= n <= 0xFFFF,
                base < 0x8000,
                from + n <= data@.len(),
                spec_card_wf(self@),
                self@ == (A2065View {
                    ram: spec_copy_to_ram(old(self)@.ram, base as int, data@.subrange(from as int, from + i)),
                    ..old(self)@
                }),
            decreases n - i,
        {
            self.write_ram_byte(base + (i as u32), data[from + i]);
            proof {
                let p = data@.subrange(from as int, from + i + 1);
                assert(p.drop_last() =~= data@.subrange(from as int, from + i));
            }
            i += 1;
        }
    }

    fn write_receive_frame(&mut self, frame: &Vec<u8>) -> (stored: bool)
        requires
            spec_card_wf(old(self)@),
        ensures
            (final(self)@, stored) == spec_write_receive(old(self)@, frame@),
            final(self)@.pending == old(self)@.pending,
            final(self)@.tx_len == old(self)@.tx_len,
            spec_card_wf(final(self)@),
    {
        let mut data: Vec<u8> = Vec::new();
        let mut j: usize = 0;
        while j < frame.len()
            invariant
                j <= frame@.len(),
                data@ == frame@.subrange(0, j as int),
            decreases frame@.len() - j,
        {
            data.push(frame[j]);
            j += 1;
            assert(data@ =~= frame@.subrange(0, j as int));
        }
        assert(data@ =~= frame@);
        if self.mode & MODE_DTCR == 0 {
            let fcs = ethernet_crc32(frame);
            data.push(fcs[0]);
            data.push(fcs[1]);
            data.push(fcs[2]);
            data.push(fcs[3]);
            assert(data@ =~= frame@ + spec_fcs(frame@));
        }
        let ghost target = spec_write_receive(old(self)@, frame@);
        let ghost dv = data@;
        assert(dv == spec_rx_data(old(self)@, frame@));
        let ring_len = self.receive_ring_len;
        let mut written: usize = 0;
        let mut first = true;
        let mut k: usize = 0;
        while k < ring_len
            invariant
                spec_card_wf(self@),
                ring_len == self@.rx_len,
                k <= ring_len,
                written <= data@.len(),
                data@ == dv,
                target == spec_write_receive(old(self)@, frame@),
                self@.pending == old(self)@.pending,
                self@.tx_len == old(self)@.tx_len,
                spec_rx_loop(self@, dv, written as int, first, (ring_len - k) as nat) == target,
            decreases ring_len - k,
        {
            let ghost vb = self@;
            let ghost rem = (ring_len - k) as nat;
            let (stop, stored, w2) = self.rx_step(&data, written, first);
            if stop {
                proof {
                    assert(rem > 0);
                    assert(spec_rx_loop(vb, dv, written as int, first, rem) == (self@, stored));
                }
                return stored;
            }
            written = w2;
            first = false;
            k += 1;
        }
        self.set_csr0(self.csr[0] | CSR0_MISS);
        false
    }

    #[verifier::rlimit(50)]
    fn rx_step(&mut self, data: &Vec<u8>, written: usize, first: bool) -> (r: (bool, bool, usize))
        requires
            spec_card_wf(old(self)@),
            written <= data@.len(),
        ensures
            (final(self)@, r.0, r.1, r.2 as int) == spec_rx_step(old(self)@, data@, written as int, first),
            r.2 <= data@.len(),
            final(self)@.rx_len == old(self)@.rx_len,
            final(self)@.tx_len == old(self)@.tx_len,
            final(self)@.pending == old(self)@.pending,
            spec_card_wf(final(self)@),
    {
        proof {
            reveal(spec_rx_step);
        }
        let addr = self.receive_ring_addr + (self.receive_ring_offset * 8) as u32;
        let mut desc = self.read_desc(addr);
        if desc.flags & RX_OWN == 0 {
            if first {
                self.set_csr0(self.csr[0] | CSR0_MISS);
            } else {
                desc.flags = desc.flags | RX_ERR | RX_BUFF;
                desc.status = desc.status | RX_OFLO;
                self.set_csr0(self.csr[0] & !CSR0_RXON);
                self.write_desc(addr, desc);
            }
            return (true, false, written);
        }
        let base = buffer_addr(desc);
        let buffer_size = buffer_len(desc);
        desc.flags = desc.flags & !RX_OWN;
        if first {
            desc.flags = desc.flags | RX_STP;
        }
        let remaining = data.len() - written;
        let copy_len = if buffer_size < remaining { buffer_size } else { remaining };
        self.copy_to_ram(base, data, written, copy_len);
        let w2 = written + copy_len;
        let done = w2 >= data.len();
        if done {
            desc.flags = desc.flags | RX_ENP;
            desc.status = if data.len() <= 0xFFFF { data.len() as u16 } else { 0xFFFF };
        }
        self.write_desc(addr, desc);
        self.advance_receive_ring();
        (done, done, w2)
    }

    /// Deliver one frame taken from the queue; returns whether delivery goes on.
    fn rx_deliver(&mut self, frame: &Vec<u8>) -> (go_on: bool)
        requires
            spec_card_wf(old(self)@),
        ensures
            (final(self)@, go_on) == spec_rx_deliver(old(self)@, frame@),
            final(self)@.pending == old(self)@.pending,
            final(self)@.tx_len == old(self)@.tx_len,
            spec_card_wf(final(self)@),
    {
        if !self.accepts_receive_frame(frame) {
            self.counters.dropped_packets = self.counters.dropped_packets.saturating_add(1);
            return true;
        }
        if self.write_receive_frame(frame) {
            self.set_csr0(self.csr[0] | CSR0_RINT);
            self.counters.rx_packets = self.counters.rx_packets.saturating_add(1);
            self.refresh_interrupt_summary();
            true
        } else {
            self.counters.dropped_packets = self.counters.dropped_packets.saturating_add(1);
            self.refresh_interrupt_summary();
            false
        }
    }

    fn service_receive(&mut self)
        requires
            spec_card_wf(old(self)@),
        ensures
            final(self)@ == spec_service_receive(old(self)@),
            final(self)@.tx_len == old(self)@.tx_len,
            spec_card_wf(final(self)@),
    {
        if !self.initialized || self.receive_ring_len == 0 || self.csr[0] & CSR0_RXON == 0
            || self.pending_receive_frames.len() == 0 {
            return;
        }
        let ghost target = spec_rx_drain(old(self)@);
        loop
            invariant_except_break
                spec_rx_drain(self@) == target,
            invariant
                spec_card_wf(self@),
                self@.tx_len == old(self)@.tx_len,
            ensures
                self@ == target,
            decreases self@.pending.len(),
        {
            let ghost before = self@;
            match self.pending_receive_frames.pop_front() {
                None => {
                    assert(before.pending.len() == 0);
                    break;
                },
                Some(frame) => {
                    proof {
                        assert(self@.pending =~= before.pending.drop_first());
                        assert(frame@ == before.pending[0]);
                        assert(self@ == (A2065View { pending: before.pending.drop_first(), ..before }));
                    }
                    if !self.rx_deliver(&frame) {
                        break;
                    }
                },
            }
        }
    }
}


/// An independent copy of a queue of frames.
fn copy_frames(q: &VecDeque<Vec<u8>>) -> (r: VecDeque<Vec<u8>>)
    ensures
        spec_frames(r@) == spec_frames(q@),
{
    let mut out: VecDeque<Vec<u8>> = VecDeque::new();
    let mut j: usize = 0;
    while j < q.len()
        invariant
            j <= q@.len(),
            out@.len() == j,
            forall|k: int| 0 <= k < j ==> out@[k]@ == q@[k]@,
        decreases q@.len() - j,
    {
        let frame = copy_bytes(&q[j]);
        out.push_back(frame);
        j += 1;
    }
    assert(spec_frames(out@) =~= spec_frames(q@));
    out
}

/// An independent copy of a byte vector.
pub(crate) fn copy_bytes(v: &Vec<u8>) -> (r: Vec<u8>)
    ensures
        r@ == v@,
{
    let mut out: Vec<u8> = Vec::new();
    let mut j: usize = 0;
    while j < v.len()
        invariant
            j <= v@.len(),
            out@ == v@.subrange(0, j as int),
        decreases v@.len() - j,
    {
        out.push(v[j]);
        j += 1;
        assert(out@ =~= v@.subrange(0, j as int));
    }
    assert(out@ =~= v@);
    out
}

/// A gathered frame with its last descriptor, seen as sequences.
pub open spec fn spec_gathered(r: Option<(Vec<u8>, u32, Descriptor)>) -> Option<(Seq<u8>, int, Descriptor)> {
    match r {
        Some(t) => Some((t.0@, t.1 as int, t.2)),
        None => None,
    }
}

impl A2065 {
    #[verifier::rlimit(50)]
    fn tx_gather_step(&mut self, frame: &mut Vec<u8>) -> (r: (bool, Option<(u32, Descriptor)>))
        requires
            spec_card_wf(old(self)@),
        ensures
            ({
                let s = spec_tx_gather_step(old(self)@, old(frame)@);
                &&& final(self)@ == s.0
                &&& final(frame)@ == s.1
                &&& r.0 == s.2
                &&& match r.1 {
                    Some(t) => s.3 == Some((t.0 as int, t.1)),
                    None => s.3 is None,
                }
            }),
            final(self)@.tx_len == old(self)@.tx_len,
            r.1 matches Some(t) ==> t.0 < 0x9000,
            spec_card_wf(final(self)@),
    {
        proof {
            reveal(spec_tx_gather_step);
        }
        let addr = self.transmit_ring_addr + (self.transmit_ring_offset * 8) as u32;
        let mut desc = self.read_desc(addr);
        if desc.flags & TX_OWN == 0 {
            desc.flags = desc.flags | TX_ERR;
            desc.status = desc.status | TX_UFLO;
            self.write_desc(addr, desc);
            self.set_csr0((self.csr[0] & !CSR0_TXON) | CSR0_TINT);
            self.refresh_interrupt_summary();
            return (true, None);
        }
        let size = buffer_len(desc);
        let base = buffer_addr(desc);
        let room = if frame.len() < MAX_PACKET_SIZE { MAX_PACKET_SIZE - frame.len() } else { 0 };
        let n = if size < room { size } else { room };
        let ghost f0 = frame@;
        let mut index: usize = 0;
        while index < n
            invariant
                index <= n <= MAX_PACKET_SIZE,
                base < 0x8000,
                spec_card_wf(self@),
                frame@ == f0 + Seq::new(index as nat, |i: int| spec_ram_byte(self@.ram, base + i)),
            decreases n - index,
        {
            let b = self.read_ram_byte(base + (index as u32));
            frame.push(b);
            index += 1;
            assert(frame@ =~= f0 + Seq::new(index as nat, |i: int| spec_ram_byte(self@.ram, base + i)));
        }
        desc.flags = desc.flags & !TX_OWN;
        self.write_desc(addr, desc);
        self.advance_transmit_ring();
        if desc.flags & TX_ENP != 0 {
            (true, Some((addr, desc)))
        } else {
            (false, None)
        }
    }

    fn read_transmit_frame(&mut self) -> (r: Option<(Vec<u8>, u32, Descriptor)>)
        requires
            spec_card_wf(old(self)@),
        ensures
            (final(self)@, spec_gathered(r)) == spec_tx_gather(old(self)@, Seq::empty(), old(self)@.tx_len as nat),
            r matches Some(t) ==> t.1 < 0x9000,
            final(self)@.tx_len == old(self)@.tx_len,
            spec_card_wf(final(self)@),
    {
        let ghost target = spec_tx_gather(old(self)@, Seq::empty(), old(self)@.tx_len as nat);
        let ring_len = self.transmit_ring_len;
        let mut frame: Vec<u8> = Vec::new();
        let mut k: usize = 0;
        while k < ring_len
            invariant
                spec_card_wf(self@),
                ring_len == self@.tx_len,
                ring_len == old(self)@.tx_len,
                k <= ring_len,
                target == spec_tx_gather(old(self)@, Seq::empty(), old(self)@.tx_len as nat),
                spec_tx_gather(self@, frame@, (ring_len - k) as nat) == target,
            decreases ring_len - k,
        {
            let ghost vb = self@;
            let ghost fb = frame@;
            let ghost rem = (ring_len - k) as nat;
            let (stop, last) = self.tx_gather_step(&mut frame);
            if stop {
                proof {
                    assert(rem > 0);
                    assert(spec_tx_gather(vb, fb, rem).0 == self@);
                }
                match last {
                    Some((addr, desc)) => {
                        return Some((frame, addr, desc));
                    },
                    None => {
                        return None;
                    },
                }
            }
            k += 1;
        }
        self.set_csr0(self.csr[0] | CSR0_TINT);
        self.counters.dropped_packets = self.counters.dropped_packets.saturating_add(1);
        self.refresh_interrupt_summary();
        None
    }

    #[verifier::rlimit(50)]
    fn tx_send(&mut self)
        requires
            spec_card_wf(old(self)@),
        ensures
            final(self)@ == spec_tx_send(old(self)@),
            final(self)@.tx_len == old(self)@.tx_len,
            spec_card_wf(final(self)@),
    {
        proof {
            reveal(spec_tx_send);
        }
        let gathered = self.read_transmit_frame();
        let (frame, last_addr, mut last_desc) = match gathered {
            Some(t) => t,
            None => {
                return;
            },
        };
        if frame.len() < ETHERNET_MIN_FRAME_SIZE {
            last_desc.flags = last_desc.flags | TX_ERR;
            last_desc.status = last_desc.status | TX_UFLO;
            last_desc.flags = last_desc.flags & !TX_OWN;
            self.write_desc(last_addr, last_desc);
            self.set_csr0((self.csr[0] & !CSR0_TXON) | CSR0_TINT);
            self.counters.dropped_packets = self.counters.dropped_packets.saturating_add(1);
            self.refresh_interrupt_summary();
            return;
        }
        let copy = copy_bytes(&frame);
        let ghost before = self@;
        self.transmitted_frames.push_back(copy);
        self.counters.tx_packets = self.counters.tx_packets.saturating_add(1);
        if self.loopback_enabled {
            self.pending_receive_frames.push_back(frame);
        }
        proof {
            assert(self@.transmitted =~= before.transmitted.push(copy@));
            if before.loopback {
                assert(self@.pending =~= before.pending.push(copy@));
            } else {
                assert(self@.pending =~= before.pending);
            }
        }
        self.set_csr0(self.csr[0] | CSR0_TINT);
        last_desc.flags = last_desc.flags & !TX_OWN;
        last_desc.status = last_desc.status & !(TX_UFLO | TX_DEF | TX_MORE | TX_ONE);
        self.write_desc(last_addr, last_desc);
        self.service_receive();
        self.refresh_interrupt_summary();
    }

    #[verifier::rlimit(50)]
    fn tx_ring_step(&mut self) -> (go_on: bool)
        requires
            spec_card_wf(old(self)@),
        ensures
            (final(self)@, go_on) == spec_tx_ring_step(old(self)@),
            final(self)@.tx_len == old(self)@.tx_len,
            spec_card_wf(final(self)@),
    {
        proof {
            reveal(spec_tx_ring_step);
        }
        let addr = self.transmit_ring_addr + (self.transmit_ring_offset * 8) as u32;
        let desc = self.read_desc(addr);
        if desc.flags & TX_OWN == 0 {
            return false;
        }
        if desc.flags & TX_STP == 0 {
            self.advance_transmit_ring();
            return true;
        }
        self.tx_send();
        false
    }

    fn service_transmit(&mut self, transmit_demand: bool)
        requires
            spec_card_wf(old(self)@),
        ensures
            final(self)@ == spec_service_transmit(old(self)@, transmit_demand),
            spec_card_wf(final(self)@),
    {
        if !transmit_demand || self.transmit_ring_len == 0 || self.csr[0] & CSR0_TXON == 0 {
            return;
        }
        let ghost target = spec_tx_loop(old(self)@, old(self)@.tx_len as nat);
        let ring_len = self.transmit_ring_len;
        let mut k: usize = 0;
        while k < ring_len
            invariant
                spec_card_wf(self@),
                ring_len == self@.tx_len,
                k <= ring_len,
                target == spec_tx_loop(old(self)@, old(self)@.tx_len as nat),
                spec_service_transmit(old(self)@, transmit_demand) == target,
                spec_tx_loop(self@, (ring_len - k) as nat) == target,
            decreases ring_len - k,
        {
            let ghost vb = self@;
            let ghost rem = (ring_len - k) as nat;
            let go_on = self.tx_ring_step();
            proof {
                assert(rem > 0);
            }
            if !go_on {
                assert(spec_tx_loop(vb, rem) == self@);
                return;
            }
            assert(spec_tx_loop(vb, rem) == spec_tx_loop(self@, (rem - 1) as nat));
            k += 1;
        }
    }
}


/// CSR0 write: the interrupt enable is taken from the value, INIT/STRT/STOP/
/// TDMD are set by ones, interrupt events are cleared by ones. Setting STOP
/// stops the chip; setting STRT from a stopped or initialized chip starts the
/// transmitter and receiver (and initializes with INIT); setting INIT on a
/// stopped chip reads the initialization block. A started, initialized chip
/// then services its rings; TDMD is never kept and INTR is recomputed.
#[verifier::opaque]
pub open spec fn spec_write_csr0(v: A2065View, value: u16) -> A2065View {
    let prev = v.csr[0];
    let c0 = (prev & !CSR0_INEA) | (value & CSR0_INEA);
    let c1 = c0 | (value & (CSR0_INIT | CSR0_STRT | CSR0_STOP | CSR0_TDMD));
    let c2 = c1 & !(value & (CSR0_IDON | CSR0_TINT | CSR0_RINT | CSR0_MERR | CSR0_MISS | CSR0_CERR | CSR0_BABL));
    let c3 = c2 & !CSR0_ERR;
    let v1 = if c3 & CSR0_STOP != 0 && prev & CSR0_STOP == 0 {
        A2065View { csr: v.csr.update(0, CSR0_STOP).update(3, 0), ..v }
    } else if c3 & CSR0_STRT != 0 && prev & CSR0_STRT == 0 && prev & (CSR0_STOP | CSR0_INIT) != 0 {
        let c4 = c3 & !CSR0_STOP;
        let c5 = if v.mode & MODE_DTX == 0 { c4 | CSR0_TXON } else { c4 };
        let c6 = if v.mode & MODE_DRX == 0 { c5 | CSR0_RXON } else { c5 };
        if c6 & CSR0_INIT != 0 && prev & CSR0_INIT == 0 {
            spec_set_csr0(spec_initialize(v), c6 | CSR0_IDON)
        } else {
            spec_set_csr0(v, c6)
        }
    } else if c3 & CSR0_INIT != 0 && prev & CSR0_INIT == 0 && prev & CSR0_STOP != 0 {
        let vi = spec_initialize(v);
        A2065View {
            csr: vi.csr.update(0, (c3 | CSR0_IDON) & !(CSR0_RXON | CSR0_TXON | CSR0_STOP)).update(3, 0),
            ..vi
        }
    } else {
        spec_set_csr0(v, c3)
    };
    let v2 = if v1.initialized && v1.csr[0] & CSR0_STRT != 0 {
        spec_service_receive(spec_service_transmit(v1, v1.csr[0] & CSR0_TDMD != 0))
    } else {
        v1
    };
    spec_refresh(spec_set_csr0(v2, v2.csr[0] & !CSR0_TDMD))
}

/// The register selected by the RAP: CSR0 reads with its error and
/// interrupt summaries.
pub open spec fn spec_read_rdp(v: A2065View) -> u16 {
    let value = v.csr[v.rap as int];
    if v.rap == 0 {
        let e = if value & CSR0_ERRORS != 0 { value | CSR0_ERR } else { value };
        if e & CSR0_INEA != 0 && e & CSR0_EVENTS != 0 { e | CSR0_INTR } else { e }
    } else {
        value
    }
}

/// A write to the register selected by the RAP: CSR0 always; CSR1 (even
/// address), CSR2 (high address byte) and CSR3 (bus mode) only while stopped.
pub open spec fn spec_write_rdp(v: A2065View, value: u16) -> A2065View {
    let stopped = v.csr[0] & CSR0_STOP != 0;
    if v.rap == 0 {
        spec_write_csr0(v, value)
    } else if v.rap == 1 && stopped {
        A2065View { csr: v.csr.update(1, value & !0x0001), ..v }
    } else if v.rap == 2 && stopped {
        A2065View { csr: v.csr.update(2, value & 0x00FF), ..v }
    } else if v.rap == 3 && stopped {
        A2065View { csr: v.csr.update(3, value & 0x0007), ..v }
    } else {
        v
    }
}

/// The card after a chip reset: stopped, uninitialized, with CSR4 at its
/// reset value and no rings.
pub open spec fn spec_reset_chip(v: A2065View) -> A2065View {
    A2065View {
        csr: Seq::new(RAP_SIZE as nat, |i: int| if i == 0 { CSR0_STOP } else if i == 4 { 0x0115u16 } else { 0u16 }),
        rap: 0,
        initialized: false,
        mode: 0,
        laf: 0,
        rx_addr: 0,
        rx_len: 0,
        tx_addr: 0,
        tx_len: 0,
        rx_off: 0,
        tx_off: 0,
        ..v
    }
}


/// The card after it is enabled with station address `mac`: unmapped and
/// awaiting autoconfig, with cleared board RAM, counters and queues and a
/// reset chip.
pub open spec fn spec_enable(v: A2065View, mac: Seq<u8>) -> A2065View {
    spec_reset_chip(
        A2065View {
            enabled: true,
            configured: false,
            shut_up: false,
            base_address: None,
            map_hi: 0,
            map_lo: 0,
            mac: mac,
            ram: Seq::new(RAM_SIZE as nat, |i: int| 0u8),
            counters: NetworkCounters { tx_packets: 0, rx_packets: 0, dropped_packets: 0 },
            transmitted: Seq::empty(),
            pending: Seq::empty(),
            ..v
        },
    )
}

/// The card after it is disabled: out of the memory map with the link down,
/// cleared counters and queues and a reset chip.
pub open spec fn spec_disable(v: A2065View) -> A2065View {
    spec_reset_chip(
        A2065View {
            enabled: false,
            configured: false,
            shut_up: false,
            base_address: None,
            link_up: false,
            counters: NetworkCounters { tx_packets: 0, rx_packets: 0, dropped_packets: 0 },
            transmitted: Seq::empty(),
            pending: Seq::empty(),
            ..v
        },
    )
}

/// The autoconfig bytes before nibble encoding: a Zorro II board of 64 KiB,
/// product 0x70 from Commodore West Chester, with the serial number taken
/// from the last four MAC octets.
pub open spec fn spec_autoconfig_bytes(mac: Seq<u8>) -> Seq<u8> {
    seq![0xC1u8, 0x70, 0x00, 0x00, 0x02, 0x02, mac[2], mac[3], mac[4], mac[5], 0x00, 0x00]
}

/// Whether an autoconfig register offset reads uninverted.
pub open spec fn spec_non_inverted(offset: u32) -> bool {
    offset == 0 || offset == 2 || offset == 0x40 || offset == 0x42
}

/// An autoconfig read at `offset`: each byte appears as its high nibble at
/// `4n` and its low nibble at `4n + 2`, inverted except for the first
/// register; other offsets read `$FF`.
pub open spec fn spec_read_autoconfig(mac: Seq<u8>, offset: u32) -> u8 {
    let index = offset / 4;
    let slot = offset % 4;
    if index >= 12 {
        0xFF
    } else {
        let b = spec_autoconfig_bytes(mac)[index as int];
        if slot == 0 {
            let nib = b & 0xF0;
            if spec_non_inverted(offset) { nib } else { !nib }
        } else if slot == 2 {
            let nib = ((b & 0x0F) << 4u8) as u8;
            if spec_non_inverted((offset - 2) as u32) { nib } else { !nib }
        } else {
            0xFF
        }
    }
}

/// The card after its base address is configured from the map registers.
pub open spec fn spec_configure(v: A2065View) -> A2065View {
    A2065View {
        base_address: Some(((v.map_hi as u32) | ((v.map_lo as u32) >> 4u32)) << 16u32),
        configured: true,
        shut_up: false,
        ..v
    }
}

/// The card after an autoconfig byte write: `$48` maps the board at the
/// written base, `$4A` latches the low base nibble, `$4C` shuts the board up.
pub open spec fn spec_write_autoconfig_byte(v: A2065View, offset: u32, value: u8) -> A2065View {
    let reg = offset & 0xFF;
    if reg == 0x48 {
        spec_configure(A2065View { map_hi: value, ..v })
    } else if reg == 0x4A {
        A2065View { map_lo: value, ..v }
    } else if reg == 0x4C {
        A2065View { shut_up: true, configured: false, base_address: None, ..v }
    } else {
        v
    }
}

/// The card after an autoconfig word write: `$48` maps the board at the
/// written high byte, `$4C` shuts the board up.
pub open spec fn spec_write_autoconfig_word(v: A2065View, offset: u32, value: u16) -> A2065View {
    let reg = offset & 0xFF;
    if reg == 0x48 {
        spec_configure(A2065View { map_hi: (value >> 8u16) as u8, map_lo: 0, ..v })
    } else if reg == 0x4C {
        A2065View { shut_up: true, configured: false, base_address: None, ..v }
    } else {
        v
    }
}

/// Whether the card answers in the autoconfig window.
pub open spec fn spec_autoconfig_active(v: A2065View) -> bool {
    v.enabled && !v.configured && !v.shut_up
}

/// Whether `addr` lies in the autoconfig window.
pub open spec fn spec_in_autoconfig(addr: u32) -> bool {
    A2065_AUTOCONFIG_BASE <= addr < A2065_AUTOCONFIG_END
}

/// Offset of `addr` in the configured board aperture.
pub open spec fn spec_board_offset(v: A2065View, addr: u32) -> Option<u32> {
    if !v.enabled || !v.configured {
        None
    } else {
        match v.base_address {
            None => None,
            Some(base) => if base <= addr < base + A2065_BOARD_SIZE { Some((addr - base) as u32) } else { None },
        }
    }
}

/// A byte of the board aperture: RAM in its upper half, zero below.
pub open spec fn spec_board_byte(v: A2065View, offset: u32) -> u8 {
    if offset >= RAM_OFFSET { spec_ram_byte(v.ram, offset as int) } else { 0 }
}

/// A byte read by the CPU: from the autoconfig window while it is active,
/// else from the mapped aperture, else nothing.
pub open spec fn spec_read_byte(v: A2065View, addr: u32) -> Option<u8> {
    if spec_autoconfig_active(v) && spec_in_autoconfig(addr) {
        Some(spec_read_autoconfig(v.mac, (addr - A2065_AUTOCONFIG_BASE) as u32))
    } else {
        match spec_board_offset(v, addr) {
            Some(o) => Some(spec_board_byte(v, o)),
            None => None,
        }
    }
}

/// A word read by the CPU: autoconfig nibbles, the LANCE data or address
/// port, or two aperture bytes big-endian.
pub open spec fn spec_read_word(v: A2065View, addr: u32) -> Option<u16> {
    if spec_autoconfig_active(v) && spec_in_autoconfig(addr) {
        let hi = spec_read_autoconfig(v.mac, (addr - A2065_AUTOCONFIG_BASE) as u32);
        let lo = spec_read_autoconfig(v.mac, (addr + 1 - A2065_AUTOCONFIG_BASE) as u32);
        Some((hi as int * 256 + lo as int) as u16)
    } else {
        match spec_board_offset(v, addr) {
            Some(o) => {
                if o == A2065_RDP {
                    Some(spec_read_rdp(v))
                } else if o == A2065_RAP {
                    Some(v.rap)
                } else {
                    Some((spec_board_byte(v, o) as int * 256 + spec_board_byte(v, (o + 1) as u32) as int) as u16)
                }
            },
            None => None,
        }
    }
}

/// The card after a CPU byte write to an aperture offset: RAM in its upper half.
pub open spec fn spec_write_board_byte(v: A2065View, offset: u32, value: u8) -> A2065View {
    if offset >= RAM_OFFSET {
        A2065View { ram: spec_put_byte(v.ram, offset as int, value), ..v }
    } else {
        v
    }
}

/// A CPU byte write and whether the card claimed it.
pub open spec fn spec_write_byte(v: A2065View, addr: u32, value: u8) -> (A2065View, bool) {
    if spec_autoconfig_active(v) && spec_in_autoconfig(addr) {
        (spec_write_autoconfig_byte(v, (addr - A2065_AUTOCONFIG_BASE) as u32, value), true)
    } else {
        match spec_board_offset(v, addr) {
            Some(o) => (spec_write_board_byte(v, o, value), true),
            None => (v, false),
        }
    }
}

/// A CPU word write and whether the card claimed it: autoconfig, the LANCE
/// data port, the address port (two bits kept), or two aperture bytes.
pub open spec fn spec_write_word(v: A2065View, addr: u32, value: u16) -> (A2065View, bool) {
    if spec_autoconfig_active(v) && spec_in_autoconfig(addr) {
        (spec_write_autoconfig_word(v, (addr - A2065_AUTOCONFIG_BASE) as u32, value), true)
    } else {
        match spec_board_offset(v, addr) {
            Some(o) => {
                if o == A2065_RDP {
                    (spec_write_rdp(v, value), true)
                } else if o == A2065_RAP {
                    (A2065View { rap: value & RAP_MASK, ..v }, true)
                } else {
                    (
                        spec_write_board_byte(
                            spec_write_board_byte(v, o, (value / 256) as u8),
                            (o + 1) as u32,
                            (value % 256) as u8,
                        ),
                        true,
                    )
                }
            },
            None => (v, false),
        }
    }
}


impl A2065 {
    fn initialize_chip(&mut self)
        requires
            spec_card_wf(old(self)@),
        ensures
            final(self)@ == spec_initialize(old(self)@),
            spec_card_wf(final(self)@),
    {
        let init_addr = (((self.csr[2] & 0x00FF) as u32) << 16) | (self.csr[1] as u32);
        let offset = init_addr % 0x8000;
        let mode = self.read_ram_word(offset);
        let l0 = self.read_ram_word(offset + 8);
        let l1 = self.read_ram_word(offset + 10);
        let l2 = self.read_ram_word(offset + 12);
        let l3 = self.read_ram_word(offset + 14);
        let r0 = self.read_ram_word(offset + 16);
        let r1 = self.read_ram_word(offset + 18);
        let t0 = self.read_ram_word(offset + 20);
        let t1 = self.read_ram_word(offset + 22);
        let receive_descriptor = ((r1 as u32) << 16) | (r0 as u32);
        let transmit_descriptor = ((t1 as u32) << 16) | (t0 as u32);
        let rshift = (receive_descriptor >> 29) & 0x07;
        let tshift = (transmit_descriptor >> 29) & 0x07;
        assert(rshift <= 7 && tshift <= 7) by (bit_vector)
            requires
                rshift == (receive_descriptor >> 29u32) & 7,
                tshift == (transmit_descriptor >> 29u32) & 7,
        ;
        assert((1u32 << ((receive_descriptor >> 29u32) & 7)) <= 128 && (1u32 << ((receive_descriptor >> 29u32) & 7))
            >= 1 && (1u32 << ((transmit_descriptor >> 29u32) & 7)) <= 128 && (1u32 << ((transmit_descriptor
            >> 29u32) & 7)) >= 1) by (bit_vector);
        self.mode = mode;
        self.logical_address_filter = ((l3 as u64) << 48) | ((l2 as u64) << 32) | ((l1 as u64) << 16) | (l0 as u64);
        self.receive_ring_len = (1u32 << rshift) as usize;
        self.transmit_ring_len = (1u32 << tshift) as usize;
        self.receive_ring_addr = (receive_descriptor & 0x00FF_FFF8) % 0x8000;
        self.transmit_ring_addr = (transmit_descriptor & 0x00FF_FFF8) % 0x8000;
        self.receive_ring_offset = 0;
        self.transmit_ring_offset = 0;
        self.initialized = true;
    }

    #[verifier::rlimit(80)]
    fn write_csr0(&mut self, value: u16)
        requires
            spec_card_wf(old(self)@),
        ensures
            final(self)@ == spec_write_csr0(old(self)@, value),
            spec_card_wf(final(self)@),
    {
        proof {
            reveal(spec_write_csr0);
        }
        let previous = self.csr[0];
        let c0 = (previous & !CSR0_INEA) | (value & CSR0_INEA);
        let c1 = c0 | (value & (CSR0_INIT | CSR0_STRT | CSR0_STOP | CSR0_TDMD));
        let c2 = c1 & !(value & (CSR0_IDON | CSR0_TINT | CSR0_RINT | CSR0_MERR | CSR0_MISS | CSR0_CERR | CSR0_BABL));
        let c3 = c2 & !CSR0_ERR;
        if c3 & CSR0_STOP != 0 && previous & CSR0_STOP == 0 {
            self.csr[0] = CSR0_STOP;
            self.csr[3] = 0;
        } else if c3 & CSR0_STRT != 0 && previous & CSR0_STRT == 0 && previous & (CSR0_STOP | CSR0_INIT) != 0 {
            let c4 = c3 & !CSR0_STOP;
            let c5 = if self.mode & MODE_DTX == 0 { c4 | CSR0_TXON } else { c4 };
            let c6 = if self.mode & MODE_DRX == 0 { c5 | CSR0_RXON } else { c5 };
            if c6 & CSR0_INIT != 0 && previous & CSR0_INIT == 0 {
                self.initialize_chip();
                self.set_csr0(c6 | CSR0_IDON);
            } else {
                self.set_csr0(c6);
            }
        } else if c3 & CSR0_INIT != 0 && previous & CSR0_INIT == 0 && previous & CSR0_STOP != 0 {
            self.initialize_chip();
            self.csr[0] = (c3 | CSR0_IDON) & !(CSR0_RXON | CSR0_TXON | CSR0_STOP);
            self.csr[3] = 0;
        } else {
            self.set_csr0(c3);
        }
        let ghost v1 = self@;
        if self.initialized && self.csr[0] & CSR0_STRT != 0 {
            self.service_transmit(self.csr[0] & CSR0_TDMD != 0);
            self.service_receive();
        }
        self.set_csr0(self.csr[0] & !CSR0_TDMD);
        self.refresh_interrupt_summary();
    }

    fn read_rdp(&self) -> (r: u16)
        requires
            spec_card_wf(self@),
        ensures
            r == spec_read_rdp(self@),
    {
        let mut value = self.csr[self.rap as usize];
        if self.rap == 0 {
            if value & CSR0_ERRORS != 0 {
                value = value | CSR0_ERR;
            }
            if value & CSR0_INEA != 0 && value & CSR0_EVENTS != 0 {
                value = value | CSR0_INTR;
            }
        }
        value
    }

    fn write_rdp(&mut self, value: u16)
        requires
            spec_card_wf(old(self)@),
        ensures
            final(self)@ == spec_write_rdp(old(self)@, value),
            spec_card_wf(final(self)@),
    {
        let stopped = self.csr[0] & CSR0_STOP != 0;
        if self.rap == 0 {
            self.write_csr0(value);
        } else if self.rap == 1 && stopped {
            self.csr[1] = value & !0x0001;
        } else if self.rap == 2 && stopped {
            self.csr[2] = value & 0x00FF;
        } else if self.rap == 3 && stopped {
            self.csr[3] = value & 0x0007;
        }
    }

    fn reset_chip(&mut self)
        requires
            old(self)@.ram.len() == RAM_SIZE,
            old(self)@.mac.len() == 6,
            old(self)@.base_address matches Some(b) ==> b <= 0x00FF_0000,
        ensures
            final(self)@ == spec_reset_chip(old(self)@),
            spec_card_wf(final(self)@),
    {
        let mut i: usize = 0;
        while i < RAP_SIZE
            invariant
                i <= RAP_SIZE,
                self.csr@.len() == RAP_SIZE,
                self@.ram == old(self)@.ram,
                forall|k: int| 0 <= k < i ==> self.csr@[k] == 0,
                self@ == (A2065View { csr: self@.csr, ..old(self)@ }),
            decreases RAP_SIZE - i,
        {
            self.csr[i] = 0;
            i += 1;
        }
        self.csr[0] = CSR0_STOP;
        self.csr[4] = 0x0115;
        self.rap = 0;
        self.initialized = false;
        self.mode = 0;
        self.logical_address_filter = 0;
        self.receive_ring_addr = 0;
        self.receive_ring_len = 0;
        self.transmit_ring_addr = 0;
        self.transmit_ring_len = 0;
        self.receive_ring_offset = 0;
        self.transmit_ring_offset = 0;
        proof {
            assert(self@.csr =~= spec_reset_chip(old(self)@).csr);
        }
    }

    fn autoconfig_active(&self) -> (r: bool)
        ensures
            r == spec_autoconfig_active(self@),
    {
        self.enabled && !self.configured && !self.shut_up
    }

    fn board_offset(&self, addr: u32) -> (r: Option<u32>)
        requires
            spec_card_wf(self@),
        ensures
            r == spec_board_offset(self@, addr),
    {
        if !self.enabled || !self.configured {
            return None;
        }
        match self.base_address {
            None => None,
            Some(base) => {
                if base <= addr && addr < base + A2065_BOARD_SIZE {
                    Some(addr - base)
                } else {
                    None
                }
            },
        }
    }

    fn read_autoconfig_byte(&self, offset: u32) -> (r: u8)
        requires
            spec_card_wf(self@),
        ensures
            r == spec_read_autoconfig(self@.mac, offset),
    {
        let index = offset / 4;
        let slot = offset % 4;
        if index >= 12 {
            return 0xFF;
        }
        let bytes = self.autoconfig_bytes();
        let b = bytes[index as usize];
        if slot == 0 {
            let nib = b & 0xF0;
            if offset == 0 || offset == 2 || offset == 0x40 || offset == 0x42 {
                nib
            } else {
                !nib
            }
        } else if slot == 2 {
            let nib = ((b & 0x0F) << 4) as u8;
            let o = offset - 2;
            if o == 0 || o == 2 || o == 0x40 || o == 0x42 {
                nib
            } else {
                !nib
            }
        } else {
            0xFF
        }
    }

    fn read_board_byte(&self, offset: u32) -> (r: u8)
        requires
            spec_card_wf(self@),
        ensures
            r == spec_board_byte(self@, offset),
    {
        if offset >= RAM_OFFSET {
            self.read_ram_byte(offset)
        } else {
            0
        }
    }

    fn write_board_byte(&mut self, offset: u32, value: u8)
        requires
            spec_card_wf(old(self)@),
        ensures
            final(self)@ == spec_write_board_byte(old(self)@, offset, value),
            spec_card_wf(final(self)@),
    {
        if offset >= RAM_OFFSET {
            self.write_ram_byte(offset, value);
        }
    }

    fn configure_from_map_registers(&mut self)
        requires
            spec_card_wf(old(self)@),
        ensures
            final(self)@ == spec_configure(old(self)@),
            spec_card_wf(final(self)@),
    {
        let hi = self.map_hi as u32;
        let lo = self.map_lo as u32;
        let base = (hi | (lo >> 4)) << 16;
        assert(((hi | (lo >> 4u32)) << 16u32) <= 0x00FF_0000) by (bit_vector)
            requires
                hi < 256,
                lo < 256,
        ;
        self.base_address = Some(base);
        self.configured = true;
        self.shut_up = false;
    }

    fn write_autoconfig_byte(&mut self, offset: u32, value: u8)
        requires
            spec_card_wf(old(self)@),
        ensures
            final(self)@ == spec_write_autoconfig_byte(old(self)@, offset, value),
            spec_card_wf(final(self)@),
    {
        let reg = offset & 0xFF;
        if reg == 0x48 {
            self.map_hi = value;
            self.configure_from_map_registers();
        } else if reg == 0x4A {
            self.map_lo = value;
        } else if reg == 0x4C {
            self.shut_up = true;
            self.configured = false;
            self.base_address = None;
        }
    }

    fn write_autoconfig_word(&mut self, offset: u32, value: u16)
        requires
            spec_card_wf(old(self)@),
        ensures
            final(self)@ == spec_write_autoconfig_word(old(self)@, offset, value),
            spec_card_wf(final(self)@),
    {
        let reg = offset & 0xFF;
        if reg == 0x48 {
            self.map_hi = (value >> 8) as u8;
            self.map_lo = 0;
            self.configure_from_map_registers();
        } else if reg == 0x4C {
            self.shut_up = true;
            self.configured = false;
            self.base_address = None;
        }
    }
}


/// A disabled card as created: absent from the bus, with the default MAC
/// address, cleared board RAM, a reset chip and nothing queued.
pub open spec fn spec_new_disabled(mac: Seq<u8>) -> A2065View {
    spec_reset_chip(
        A2065View {
            enabled: false,
            configured: false,
            shut_up: false,
            base_address: None,
            map_hi: 0,
            map_lo: 0,
            mac,
            ram: Seq::new(RAM_SIZE as nat, |i: int| 0u8),
            csr: Seq::new(RAP_SIZE as nat, |i: int| 0u16),
            rap: 0,
            initialized: false,
            mode: 0,
            laf: 0,
            rx_addr: 0,
            rx_len: 0,
            tx_addr: 0,
            tx_len: 0,
            rx_off: 0,
            tx_off: 0,
            loopback: false,
            transmitted: Seq::empty(),
            pending: Seq::empty(),
            link_up: false,
            counters: NetworkCounters { tx_packets: 0, rx_packets: 0, dropped_packets: 0 },
        },
    )
}

impl Default for A2065 {
    fn default() -> (r: Self)
        ensures
            r@ == spec_new_disabled(seq![0x00u8, 0x80u8, 0x10u8, 0x4Du8, 0x49u8, 0x47u8]),
            spec_card_wf(r@),
    {
        Self::new_disabled()
    }
}

impl A2065 {
    /// Create an absent A2065 device.
    pub fn new_disabled() -> (r: Self)
        ensures
            r@ == spec_new_disabled(seq![0x00u8, 0x80u8, 0x10u8, 0x4Du8, 0x49u8, 0x47u8]),
            spec_card_wf(r@),
    {
        let mut device = Self {
            enabled: false,
            configured: false,
            shut_up: false,
            base_address: None,
            map_hi: 0,
            map_lo: 0,
            mac_address: MacAddress::a2065_compatible_default(),
            ram: vec![0u8; RAM_SIZE],
            csr: [0u16; RAP_SIZE],
            rap: 0,
            initialized: false,
            mode: 0,
            logical_address_filter: 0,
            receive_ring_addr: 0,
            receive_ring_len: 0,
            transmit_ring_addr: 0,
            transmit_ring_len: 0,
            receive_ring_offset: 0,
            transmit_ring_offset: 0,
            loopback_enabled: false,
            transmitted_frames: VecDeque::new(),
            pending_receive_frames: VecDeque::new(),
            link_up: false,
            counters: NetworkCounters::default(),
        };
        proof {
            assert(device@.ram =~= Seq::new(RAM_SIZE as nat, |i: int| 0u8));
            assert(device@.csr =~= Seq::new(RAP_SIZE as nat, |i: int| 0u16));
            assert(device@.transmitted =~= Seq::<Seq<u8>>::empty());
            assert(device@.pending =~= Seq::<Seq<u8>>::empty());
        }
        device.reset_chip();
        device
    }

    /// Enable the card with a station MAC address: unmapped, awaiting
    /// autoconfig, with cleared board RAM, counters and queues and a reset chip.
    pub fn enable(&mut self, mac_address: MacAddress)
        requires
            spec_card_wf(old(self)@),
        ensures
            final(self)@ == spec_enable(old(self)@, mac_address@),
            spec_card_wf(final(self)@),
    {
        proof {
            lemma_mac_len(mac_address);
        }
        self.enabled = true;
        self.configured = false;
        self.shut_up = false;
        self.base_address = None;
        self.map_hi = 0;
        self.map_lo = 0;
        self.mac_address = mac_address;
        let ghost pre = self@;
        let mut i: usize = 0;
        while i < self.ram.len()
            invariant
                i <= self.ram@.len() == RAM_SIZE,
                forall|k: int| 0 <= k < i ==> self.ram@[k] == 0,
                self@ == (A2065View { ram: self@.ram, ..pre }),
                pre.mac.len() == 6,
            decreases self.ram@.len() - i,
        {
            self.ram.set(i, 0);
            i += 1;
        }
        self.counters = NetworkCounters::default();
        self.transmitted_frames.clear();
        self.pending_receive_frames.clear();
        proof {
            assert(self@.ram =~= Seq::new(RAM_SIZE as nat, |i: int| 0u8));
            assert(self@.transmitted =~= Seq::<Seq<u8>>::empty());
            assert(self@.pending =~= Seq::<Seq<u8>>::empty());
        }
        self.reset_chip();
    }

    /// Disable the card and remove it from the memory map.
    pub fn disable(&mut self)
        requires
            spec_card_wf(old(self)@),
        ensures
            final(self)@ == spec_disable(old(self)@),
            spec_card_wf(final(self)@),
    {
        self.enabled = false;
        self.configured = false;
        self.shut_up = false;
        self.base_address = None;
        self.link_up = false;
        self.counters = NetworkCounters::default();
        self.transmitted_frames.clear();
        self.pending_receive_frames.clear();
        proof {
            assert(self@.transmitted =~= Seq::<Seq<u8>>::empty());
            assert(self@.pending =~= Seq::<Seq<u8>>::empty());
        }
        self.reset_chip();
    }

    /// Enable or disable the in-core loopback backend, which also sets the link state.
    pub fn set_loopback_enabled(&mut self, enabled: bool)
        ensures
            final(self)@ == (A2065View { loopback: enabled, link_up: enabled, ..old(self)@ }),
    {
        self.loopback_enabled = enabled;
        self.link_up = enabled;
    }

    /// Queue a host-supplied Ethernet frame for guest receive-ring delivery,
    /// and deliver what the receive ring can take.
    pub fn queue_receive_frame(&mut self, frame: Vec<u8>)
        requires
            spec_card_wf(old(self)@),
        ensures
            final(self)@ == spec_service_receive(
                A2065View { pending: old(self)@.pending.push(frame@), ..old(self)@ },
            ),
            spec_card_wf(final(self)@),
    {
        let ghost f = frame@;
        self.pending_receive_frames.push_back(frame);
        proof {
            assert(self@.pending =~= old(self)@.pending.push(f));
        }
        self.service_receive();
    }

    /// Take the next Ethernet frame transmitted by the guest.
    pub fn take_transmitted_frame(&mut self) -> (r: Option<Vec<u8>>)
        ensures
            old(self)@.transmitted.len() == 0 ==> r is None && final(self)@ == old(self)@,
            old(self)@.transmitted.len() > 0 ==> (r matches Some(f) && f@ == old(self)@.transmitted[0]),
            old(self)@.transmitted.len() > 0 ==> final(self)@ == (A2065View {
                transmitted: old(self)@.transmitted.drop_first(),
                ..old(self)@
            }),
    {
        let r = self.transmitted_frames.pop_front();
        proof {
            if old(self)@.transmitted.len() > 0 {
                assert(self@.transmitted =~= old(self)@.transmitted.drop_first());
            }
        }
        r
    }

    /// The diagnostics snapshot.
    pub fn status(&self) -> (r: A2065Status)
        ensures
            r.enabled == self@.enabled && r.configured == self@.configured && r.shut_up == self@.shut_up,
            r.base_address == self@.base_address && r.mac_address@ == self@.mac,
            r.link_up == self@.link_up && r.counters == self@.counters,
    {
        A2065Status {
            enabled: self.enabled,
            configured: self.configured,
            shut_up: self.shut_up,
            base_address: self.base_address,
            mac_address: self.mac_address,
            link_up: self.link_up,
            counters: self.counters,
        }
    }

    /// An independent copy of the card's state.
    pub fn duplicate(&self) -> (r: Self)
        ensures
            r@ == self@,
    {
        A2065 {
            enabled: self.enabled,
            configured: self.configured,
            shut_up: self.shut_up,
            base_address: self.base_address,
            map_hi: self.map_hi,
            map_lo: self.map_lo,
            mac_address: self.mac_address,
            ram: copy_bytes(&self.ram),
            csr: self.csr,
            rap: self.rap,
            initialized: self.initialized,
            mode: self.mode,
            logical_address_filter: self.logical_address_filter,
            receive_ring_addr: self.receive_ring_addr,
            receive_ring_len: self.receive_ring_len,
            transmit_ring_addr: self.transmit_ring_addr,
            transmit_ring_len: self.transmit_ring_len,
            receive_ring_offset: self.receive_ring_offset,
            transmit_ring_offset: self.transmit_ring_offset,
            loopback_enabled: self.loopback_enabled,
            transmitted_frames: copy_frames(&self.transmitted_frames),
            pending_receive_frames: copy_frames(&self.pending_receive_frames),
            link_up: self.link_up,
            counters: self.counters,
        }
    }

    /// Whether the card's state satisfies its invariant: board RAM and
    /// register file of their sizes, ring bookkeeping inside board RAM and the
    /// rings, and a mapping inside the Zorro II space.
    pub fn is_well_formed(&self) -> (r: bool)
        ensures
            r == spec_card_wf(self@),
    {
        proof {
            lemma_mac_len(self.mac_address);
        }
        let base_ok = match self.base_address {
            Some(b) => b <= 0x00FF_0000,
            None => true,
        };
        let rx_ok = if self.receive_ring_len == 0 {
            self.receive_ring_offset < 1
        } else {
            self.receive_ring_offset < self.receive_ring_len
        };
        let tx_ok = if self.transmit_ring_len == 0 {
            self.transmit_ring_offset < 1
        } else {
            self.transmit_ring_offset < self.transmit_ring_len
        };
        self.ram.len() == RAM_SIZE && self.rap < 4 && self.receive_ring_len <= 128 && self.transmit_ring_len <= 128
            && self.receive_ring_addr < 0x8000 && self.transmit_ring_addr < 0x8000 && rx_ok && tx_ok && base_ok
    }

    /// The Amiga-facing autoconfig bytes before nibble encoding.
    pub fn autoconfig_bytes(&self) -> (r: [u8; 12])
        ensures
            r@ == spec_autoconfig_bytes(self@.mac),
    {
        let mac = self.mac_address.octets();
        proof {
            lemma_mac_len(self.mac_address);
        }
        let r = [0xC1u8, 0x70, 0x00, 0x00, 0x02, 0x02, mac[2], mac[3], mac[4], mac[5], 0x00, 0x00];
        assert(r@ =~= spec_autoconfig_bytes(self@.mac));
        r
    }

    /// Read a byte from the active autoconfig window or the mapped board aperture.
    pub fn read_byte(&self, addr: u32) -> (r: Option<u8>)
        requires
            spec_card_wf(self@),
        ensures
            r == spec_read_byte(self@, addr),
    {
        if self.autoconfig_active() && A2065_AUTOCONFIG_BASE <= addr && addr < A2065_AUTOCONFIG_END {
            return Some(self.read_autoconfig_byte(addr - A2065_AUTOCONFIG_BASE));
        }
        match self.board_offset(addr) {
            Some(offset) => Some(self.read_board_byte(offset)),
            None => None,
        }
    }

    /// Read a word from the active autoconfig window or the mapped board aperture.
    pub fn read_word(&self, addr: u32) -> (r: Option<u16>)
        requires
            spec_card_wf(self@),
        ensures
            r == spec_read_word(self@, addr),
    {
        if self.autoconfig_active() && A2065_AUTOCONFIG_BASE <= addr && addr < A2065_AUTOCONFIG_END {
            let hi = self.read_autoconfig_byte(addr - A2065_AUTOCONFIG_BASE);
            let lo = self.read_autoconfig_byte(addr + 1 - A2065_AUTOCONFIG_BASE);
            return Some((hi as u16) * 256 + (lo as u16));
        }
        match self.board_offset(addr) {
            Some(offset) => {
                if offset == A2065_RDP {
                    Some(self.read_rdp())
                } else if offset == A2065_RAP {
                    Some(self.rap)
                } else {
                    let hi = self.read_board_byte(offset);
                    let lo = self.read_board_byte(offset + 1);
                    Some((hi as u16) * 256 + (lo as u16))
                }
            },
            None => None,
        }
    }

    /// Write a byte to the active autoconfig window or the mapped board
    /// aperture; returns whether the card claimed the address.
    pub fn write_byte(&mut self, addr: u32, value: u8) -> (claimed: bool)
        requires
            spec_card_wf(old(self)@),
        ensures
            (final(self)@, claimed) == spec_write_byte(old(self)@, addr, value),
            spec_card_wf(final(self)@),
    {
        if self.autoconfig_active() && A2065_AUTOCONFIG_BASE <= addr && addr < A2065_AUTOCONFIG_END {
            self.write_autoconfig_byte(addr - A2065_AUTOCONFIG_BASE, value);
            return true;
        }
        match self.board_offset(addr) {
            Some(offset) => {
                self.write_board_byte(offset, value);
                true
            },
            None => false,
        }
    }

    /// Write a word to the active autoconfig window or the mapped board
    /// aperture; returns whether the card claimed the address.
    pub fn write_word(&mut self, addr: u32, value: u16) -> (claimed: bool)
        requires
            spec_card_wf(old(self)@),
        ensures
            (final(self)@, claimed) == spec_write_word(old(self)@, addr, value),
            spec_card_wf(final(self)@),
    {
        if self.autoconfig_active() && A2065_AUTOCONFIG_BASE <= addr && addr < A2065_AUTOCONFIG_END {
            self.write_autoconfig_word(addr - A2065_AUTOCONFIG_BASE, value);
            return true;
        }
        match self.board_offset(addr) {
            Some(offset) => {
                if offset == A2065_RDP {
                    self.write_rdp(value);
                } else if offset == A2065_RAP {
                    self.rap = value & RAP_MASK;
                    assert(value & RAP_MASK < 4) by (bit_vector);
                } else {
                    self.write_board_byte(offset, (value / 256) as u8);
                    self.write_board_byte(offset + 1, (value % 256) as u8);
                }
                true
            },
            None => false,
        }
    }
}


/// Board RAM reads back what the CPU wrote: once the card is mapped, a byte
/// written anywhere in the RAM half of its aperture is read back unchanged,
/// and the write is claimed.
pub proof fn law_board_ram_read_after_write(v: A2065View, addr: u32, value: u8)
    requires
        spec_card_wf(v),
        v.enabled && v.configured,
        v.base_address matches Some(b) && b + RAM_OFFSET <= addr < b + A2065_BOARD_SIZE,
    ensures
        spec_write_byte(v, addr, value).1,
        spec_read_byte(spec_write_byte(v, addr, value).0, addr) == Some(value),
{
}

/// The register address port keeps only its low two bits, and reads back
/// what was kept.
pub proof fn law_rap_read_after_write(v: A2065View, value: u16)
    requires
        spec_card_wf(v),
        v.enabled && v.configured,
        v.base_address is Some,
    ensures
        ({
            let addr = (v.base_address.unwrap() + A2065_RAP) as u32;
            let w = spec_write_word(v, addr, value);
            w.1 && spec_read_word(w.0, addr) == Some(value & RAP_MASK)
        }),
{
}


/// Which frames the card takes from the wire: nothing shorter than an
/// Ethernet header; in promiscuous mode or loopback everything else; a frame
/// for the card's own address or for the broadcast address
/// FF:FF:FF:FF:FF:FF in every mode, whatever the logical address filter;
/// and, outside promiscuous mode and loopback, no unicast frame for another
/// station, nor a multicast one while the logical address filter is clear.
pub proof fn law_receive_filter(v: A2065View, frame: Seq<u8>)
    ensures
        frame.len() < 14 ==> !spec_accepts(v, frame),
        frame.len() >= 14 && (v.mode & MODE_PROM != 0 || v.loopback) ==> spec_accepts(v, frame),
        frame.len() >= 14 && (forall|k: int| 0 <= k < 6 ==> frame[k] == 0xFF) ==> spec_accepts(v, frame),
        frame.len() >= 14 && v.mac.len() == 6 && (forall|k: int| 0 <= k < 6 ==> frame[k] == v.mac[k])
            ==> spec_accepts(v, frame),
        frame.len() >= 14 && v.mode & MODE_PROM == 0 && !v.loopback && (exists|k: int|
            0 <= k < 6 && frame[k] != 0xFF) && (exists|k: int| 0 <= k < 6 && frame[k] != v.mac[k]) && (frame[0] & 1
            == 0 || v.laf == 0) ==> !spec_accepts(v, frame),
{
    if frame.len() >= 14 {
        let dest = frame.subrange(0, 6);
        if forall|k: int| 0 <= k < 6 ==> frame[k] == 0xFF {
            assert(dest =~= seq![0xFFu8, 0xFF, 0xFF, 0xFF, 0xFF, 0xFF]);
        }
        if v.mac.len() == 6 && forall|k: int| 0 <= k < 6 ==> frame[k] == v.mac[k] {
            assert(dest =~= v.mac);
        }
        if exists|k: int| 0 <= k < 6 && frame[k] != 0xFF {
            let k = choose|k: int| 0 <= k < 6 && frame[k] != 0xFF;
            assert(dest[k] != seq![0xFFu8, 0xFF, 0xFF, 0xFF, 0xFF, 0xFF][k]);
        }
        if exists|k: int| 0 <= k < 6 && frame[k] != v.mac[k] {
            let k = choose|k: int| 0 <= k < 6 && frame[k] != v.mac[k];
            assert(dest[k] != v.mac[k]);
        }
    }
}

} // verus!
