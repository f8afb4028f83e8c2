//! Floppy disk controller: drive selection and stepping, DSKLEN-driven DMA
//! with sync-word gating, per-word MFM streaming and AmigaDOS track encoding
//! and decoding.

use vstd::prelude::*;

use crate::custom::{INT_DSKBLK, INT_DSKSYN};
use crate::registers::{spec_with_high_word, spec_with_low_word, with_high_word, with_low_word};
use crate::playfield::{spec_word_at, word_at};

verus! {

/// Sectors per track in an ADF image.
pub const SECTORS_PER_TRACK: u32 = 11;

/// Bytes per sector.
pub const SECTOR_SIZE: u32 = 512;

/// Raw bytes per track in an ADF image.
pub const TRACK_SIZE: u32 = SECTORS_PER_TRACK * SECTOR_SIZE;

/// MFM words in one `AmigaDOS` sector, including gap/sync/header/data.
pub const MFM_WORDS_PER_SECTOR: usize = 544;

/// MFM words per track (standard DD track = 12668 bytes = 6334 words).
pub const MFM_TRACK_WORDS: u32 = 6334;

/// Turbo sentinel for the fastest software-driven floppy loading.
pub const FLOPPY_SPEED_TURBO_PERCENT: u16 = 0;

/// Compatible floppy speed.
pub const FLOPPY_SPEED_COMPATIBLE_PERCENT: u16 = 100;

/// PAL scanlines per 300 RPM floppy revolution (10 PAL frames).
pub const PAL_SCANLINES_PER_FLOPPY_REVOLUTION: u32 = 312 * 10;

/// Percent denominator used for the public floppy speed setting.
pub const FLOPPY_SPEED_PERCENT_DENOMINATOR: u32 = 100;

/// Turbo mode word budget per scanline.
pub const TURBO_DSK_WORD_CYCLES_PER_SCANLINE: usize = 64;

/// Leading gap before the first `AmigaDOS` sector: the track words not taken
/// by the eleven sectors.
pub const FLOPPY_GAP_WORDS: usize = 350;

/// Whether a floppy speed percentage is one of the supported settings.
pub open spec fn spec_is_supported_speed(percent: u16) -> bool {
    percent == 0 || percent == 100 || percent == 200 || percent == 400 || percent == 800
}

/// Returns whether a floppy speed value is supported: `0` (turbo), `100`,
/// `200`, `400` or `800`.
pub fn is_supported_floppy_speed_percent(percent: u16) -> (r: bool)
    ensures
        r == spec_is_supported_speed(percent),
{
    percent == 0 || percent == 100 || percent == 200 || percent == 400 || percent == 800
}

/// DMA state machine.
#[derive(Clone, Copy, Debug, PartialEq, Eq, Structural)]
pub enum DskDmaState {
    /// DMA is off.
    Off,
    /// DMA is in read mode (waiting for sync or transferring).
    Read,
    /// DMA is in write mode.
    Write,
}

/// State of a single floppy drive.
#[derive(Clone, Debug)]
pub struct DriveState {
    /// ADF image data (`None` = no disk inserted).
    pub data: Option<Vec<u8>>,
    /// MFM-encoded track buffer (built on demand).
    pub mfm_track: Vec<u16>,
    /// Current cylinder (0–79).
    pub cyl: u8,
    /// Motor on/off.
    pub motor: bool,
    /// Current position in MFM track (word index).
    pub mfm_pos: u32,
    /// Drive ID shift register (32 bits, shifted out via DSKRDY).
    pub drive_id: u32,
    /// Number of ID bits remaining to shift out.
    pub id_shift_count: u8,
    /// Motor spin-up delay (in scanlines).
    pub dskready_up_time: u16,
    /// Dynamic ready state of the drive.
    pub dskready: bool,
    /// Latch indicating disk was inserted/changed since last step.
    pub disk_changed: bool,
    /// Whether the disk data has been mutated and needs writeback.
    pub dirty: bool,
}

/// Abstract state of one drive: the disk image and MFM track as sequences.
pub struct DriveView {
    pub data: Option<Seq<u8>>,
    pub mfm_track: Seq<u16>,
    pub cyl: u8,
    pub motor: bool,
    pub mfm_pos: u32,
    pub drive_id: u32,
    pub id_shift_count: u8,
    pub dskready_up_time: u16,
    pub dskready: bool,
    pub disk_changed: bool,
    pub dirty: bool,
}

/// The image of an optional disk as an optional byte sequence.
pub open spec fn spec_opt_bytes(data: Option<Vec<u8>>) -> Option<Seq<u8>> {
    match data {
        Some(v) => Some(v@),
        None => None,
    }
}

impl View for DriveState {
    type V = DriveView;

    open spec fn view(&self) -> DriveView {
        DriveView {
            data: spec_opt_bytes(self.data),
            mfm_track: self.mfm_track@,
            cyl: self.cyl,
            motor: self.motor,
            mfm_pos: self.mfm_pos,
            drive_id: self.drive_id,
            id_shift_count: self.id_shift_count,
            dskready_up_time: self.dskready_up_time,
            dskready: self.dskready,
            disk_changed: self.disk_changed,
            dirty: self.dirty,
        }
    }
}

/// An empty drive: no disk, motor off, cylinder 0, and the disk-change latch set.
pub open spec fn spec_empty_drive(drive_id: u32) -> DriveView {
    DriveView {
        data: None,
        mfm_track: Seq::empty(),
        cyl: 0,
        motor: false,
        mfm_pos: 0,
        drive_id,
        id_shift_count: 0,
        dskready_up_time: 0,
        dskready: false,
        disk_changed: true,
        dirty: false,
    }
}

fn empty_drive(drive_id: u32) -> (d: DriveState)
    ensures
        d@ == spec_empty_drive(drive_id),
{
    DriveState {
        data: None,
        mfm_track: Vec::new(),
        cyl: 0,
        motor: false,
        mfm_pos: 0,
        drive_id,
        id_shift_count: 0,
        dskready_up_time: 0,
        dskready: false,
        disk_changed: true,
        dirty: false,
    }
}

impl Default for DriveState {
    fn default() -> (d: Self)
        ensures
            d@ == spec_empty_drive(0),
    {
        empty_drive(0)
    }
}

/// Floppy disk controller managing up to four drives.
#[derive(Clone, Debug)]
pub struct FloppyController {
    /// Drive states for DF0–DF3.
    pub drives: [DriveState; 4],
    /// Currently selected drives (bitmask from CIA-B PRB bits 3-6, active low).
    pub selected: u8,
    /// Current side (0 or 1), derived from CIA-B PRB bit 2.
    pub side: u8,
    /// Current step direction (0=inward, 1=outward/toward track 0).
    pub direction: u8,
    /// Previous step pulse state (for edge detection).
    pub prev_step: bool,
    /// Previous CIA-B PRB value (for edge detection).
    pub prev_prb: u8,
    /// DSKLEN register value.
    pub dsklen: u16,
    /// Previous DSKLEN value (for double-write detection).
    pub prev_dsklen: u16,
    /// DMA state.
    pub dma_state: DskDmaState,
    /// Whether sync word has been found (gates DMA transfer).
    pub dma_enable: bool,
    /// Remaining words to transfer.
    pub dsk_length: u16,
    /// DSKSYNC register value (sync word to match, default $4489).
    pub dsksync: u16,
    /// Last MFM word streamed past the head, for sync detection.
    pub word: u16,
    /// Bit offset within current word (0-15).
    pub bit_offset: u8,
    /// Pending DSKSYNC interrupt.
    pub pending_sync_irq: bool,
    /// Pending DSKBLK interrupt (DMA complete).
    pub pending_blk_irq: bool,
    /// Disk DMA pointer (DSKPT).
    pub dskpt: u32,
    /// DSKBYTR register value.
    pub dskbytr_val: u16,
    /// Floppy transfer speed percentage. `0` means turbo.
    speed_percent: u16,
    /// Fractional MFM word timing accumulator.
    dma_word_accumulator: u32,
    /// Written MFM word buffer collected during write DMA.
    pub write_buffer: Vec<u16>,
}

/// Abstract state of the controller.
pub struct FloppyView {
    pub drives: Seq<DriveView>,
    pub selected: u8,
    pub side: u8,
    pub direction: u8,
    pub prev_step: bool,
    pub prev_prb: u8,
    pub dsklen: u16,
    pub prev_dsklen: u16,
    pub dma_state: DskDmaState,
    pub dma_enable: bool,
    pub dsk_length: u16,
    pub dsksync: u16,
    pub word: u16,
    pub bit_offset: u8,
    pub pending_sync_irq: bool,
    pub pending_blk_irq: bool,
    pub dskpt: u32,
    pub dskbytr_val: u16,
    pub speed_percent: u16,
    pub dma_word_accumulator: u32,
    pub write_buffer: Seq<u16>,
}

impl View for FloppyController {
    type V = FloppyView;

    closed spec fn view(&self) -> FloppyView {
        FloppyView {
            drives: Seq::new(4, |i: int| self.drives@[i]@),
            selected: self.selected,
            side: self.side,
            direction: self.direction,
            prev_step: self.prev_step,
            prev_prb: self.prev_prb,
            dsklen: self.dsklen,
            prev_dsklen: self.prev_dsklen,
            dma_state: self.dma_state,
            dma_enable: self.dma_enable,
            dsk_length: self.dsk_length,
            dsksync: self.dsksync,
            word: self.word,
            bit_offset: self.bit_offset,
            pending_sync_irq: self.pending_sync_irq,
            pending_blk_irq: self.pending_blk_irq,
            dskpt: self.dskpt,
            dskbytr_val: self.dskbytr_val,
            speed_percent: self.speed_percent,
            dma_word_accumulator: self.dma_word_accumulator,
            write_buffer: self.write_buffer@,
        }
    }
}

/// Word cycles of one floppy revolution at 100%, scaled by the percent denominator.
pub open spec fn spec_speed_denominator() -> int {
    PAL_SCANLINES_PER_FLOPPY_REVOLUTION * FLOPPY_SPEED_PERCENT_DENOMINATOR
}

/// The controller invariant: four drives, a supported speed, and a timing
/// remainder below one word.
pub open spec fn spec_floppy_wf(v: FloppyView) -> bool {
    &&& v.drives.len() == 4
    &&& spec_is_supported_speed(v.speed_percent)
    &&& v.dma_word_accumulator < spec_speed_denominator()
}

/// Whether drive `dr` is selected (its select bit is active low).
pub open spec fn spec_drive_selected(selected: u8, dr: int) -> bool {
    selected & (1u8 << (dr as u8)) == 0
}

/// A drive after its select line goes from high to low: the ID shift counter
/// advances, and the motor flip-flop takes the motor bit of the old or new
/// port value; switching the motor on starts the spin-up delay, switching it
/// off resets the ID counter and the ready state.
pub open spec fn spec_select_edge(d: DriveView, prev_data: u8, data: u8) -> DriveView {
    let next_motor = prev_data & 0x80 == 0 || data & 0x80 == 0;
    let id = ((d.id_shift_count + 1) % 32) as u8;
    if !d.motor && next_motor {
        DriveView { motor: true, id_shift_count: id, dskready_up_time: 5616, dskready: false, ..d }
    } else if d.motor && !next_motor {
        DriveView { motor: false, id_shift_count: 0, dskready_up_time: 0, dskready: false, ..d }
    } else {
        DriveView { motor: next_motor, id_shift_count: id, ..d }
    }
}

/// A drive after a step pulse: one cylinder outward (toward 0) or inward (up
/// to 79), the cached MFM track dropped, and the disk-change latch cleared
/// when a disk is present.
pub open spec fn spec_step_drive(d: DriveView, direction: u8) -> DriveView {
    DriveView {
        cyl: if direction != 0 {
            if d.cyl > 0 { (d.cyl - 1) as u8 } else { 0 }
        } else if d.cyl < 79 {
            (d.cyl + 1) as u8
        } else {
            d.cyl
        },
        mfm_track: Seq::empty(),
        disk_changed: if d.data is Some { false } else { d.disk_changed },
        ..d
    }
}

/// Drive `dr`, in state `d`, after a CIA-B port B write of `data`, given the
/// previous select mask, port value and step line.
pub open spec fn spec_drive_after_port_write(
    d: DriveView,
    dr: int,
    selected: u8,
    prev_prb: u8,
    prev_step: bool,
    data: u8,
) -> DriveView {
    let new_selected = (data >> 3u8) & 0x0F;
    let d1 = if !spec_drive_selected(selected, dr) && spec_drive_selected(new_selected, dr) {
        spec_select_edge(d, prev_prb, data)
    } else {
        d
    };
    let step = data & 1 != 0 && !prev_step;
    let direction = (data >> 1u8) & 1;
    if step && spec_drive_selected((prev_prb >> 3u8) & 0x0F, dr) {
        spec_step_drive(d1, direction)
    } else {
        d1
    }
}

/// Drive `dr` after a CIA-B port B write of `data`.
pub open spec fn spec_drive_after_select(v: FloppyView, dr: int, data: u8) -> DriveView {
    spec_drive_after_port_write(v.drives[dr], dr, v.selected, v.prev_prb, v.prev_step, data)
}

/// Controller state after a CIA-B port B write (drive select, motor, side,
/// direction and step).
pub open spec fn spec_disk_select(v: FloppyView, data: u8) -> FloppyView {
    FloppyView {
        drives: Seq::new(4, |i: int| spec_drive_after_select(v, i, data)),
        selected: (data >> 3u8) & 0x0F,
        side: (1 - ((data >> 2u8) & 1)) as u8,
        direction: (data >> 1u8) & 1,
        prev_prb: data,
        prev_step: data & 1 != 0,
        ..v
    }
}

/// Whether drive `dr` is selected and holds a disk.
pub open spec fn spec_drive_ready(v: FloppyView, dr: int) -> bool {
    spec_drive_selected(v.selected, dr) && v.drives[dr].data is Some
}

/// Whether any selected drive holds a disk.
pub open spec fn spec_has_selected_disk(v: FloppyView) -> bool {
    exists|dr: int| 0 <= dr < 4 && spec_drive_ready(v, dr)
}

/// The lowest-numbered selected drive that holds a disk.
pub open spec fn spec_first_disk_drive(v: FloppyView) -> Option<int> {
    if spec_drive_ready(v, 0) {
        Some(0)
    } else if spec_drive_ready(v, 1) {
        Some(1)
    } else if spec_drive_ready(v, 2) {
        Some(2)
    } else if spec_drive_ready(v, 3) {
        Some(3)
    } else {
        None
    }
}

/// Controller state after a DSKLEN write: a second consecutive write with
/// bit 15 set starts DMA on a selected disk (write DMA with bit 14; read DMA
/// otherwise, gated by the sync word when `ADKCON` WORDSYNC is set), or, with
/// no disk, raises both disk interrupts at once; clearing bit 15 aborts DMA.
pub open spec fn spec_write_dsklen(v: FloppyView, value: u16, adkcon: u16) -> FloppyView {
    let v1 = FloppyView { prev_dsklen: value, dsklen: value, ..v };
    if value & 0x8000 != 0 && v.prev_dsklen & 0x8000 != 0 {
        if spec_has_selected_disk(v) {
            if value & 0x4000 != 0 {
                FloppyView {
                    dma_state: DskDmaState::Write,
                    dsk_length: value & 0x3FFF,
                    write_buffer: Seq::empty(),
                    ..v1
                }
            } else {
                FloppyView {
                    dma_state: DskDmaState::Read,
                    dma_enable: adkcon & 0x0400 == 0,
                    dsk_length: value & 0x3FFF,
                    word: 0,
                    bit_offset: 0,
                    ..v1
                }
            }
        } else {
            FloppyView { dma_state: DskDmaState::Off, pending_sync_irq: true, pending_blk_irq: true, ..v1 }
        }
    } else if value & 0x8000 == 0 {
        FloppyView { dma_state: DskDmaState::Off, dma_enable: false, ..v1 }
    } else {
        v1
    }
}

/// Drive `d` after a disk image is inserted.
pub open spec fn spec_insert(d: DriveView, data: Seq<u8>) -> DriveView {
    DriveView {
        data: Some(data),
        mfm_track: Seq::empty(),
        drive_id: 0xFFFF_FFFF,
        disk_changed: true,
        dskready: false,
        ..d
    }
}

/// Drive `d` after one scanline of motor spin-up: a disk's pending delay
/// counts down, and the drive becomes ready when it reaches zero with the
/// motor on.
pub open spec fn spec_tick_drive(d: DriveView) -> DriveView {
    if d.dskready_up_time > 0 && d.data is Some {
        let t = (d.dskready_up_time - 1) as u16;
        DriveView { dskready_up_time: t, dskready: if t == 0 && d.motor { true } else { d.dskready }, ..d }
    } else {
        d
    }
}

/// Controller state after a speed change: the new speed, with the word timing restarted.
pub open spec fn spec_set_speed(v: FloppyView, percent: u16) -> FloppyView {
    FloppyView { speed_percent: percent, dma_word_accumulator: 0, ..v }
}

/// Word cycles for one scanline and the controller state after it: a fixed
/// budget in turbo mode; otherwise one track per revolution scaled by the
/// speed, the fractional remainder carried to the next line.
pub open spec fn spec_word_cycles(v: FloppyView) -> (int, FloppyView) {
    if v.speed_percent == 0 {
        (TURBO_DSK_WORD_CYCLES_PER_SCANLINE as int, v)
    } else {
        let total = v.dma_word_accumulator + MFM_TRACK_WORDS * v.speed_percent;
        (
            total / spec_speed_denominator(),
            FloppyView { dma_word_accumulator: (total % spec_speed_denominator()) as u32, ..v },
        )
    }
}

/// Controller state after inserting a disk image into drive `drive`; an
/// index past DF3 changes nothing.
pub open spec fn spec_insert_disk(v: FloppyView, drive: int, data: Seq<u8>) -> FloppyView {
    if 0 <= drive < 4 {
        FloppyView { drives: v.drives.update(drive, spec_insert(v.drives[drive], data)), ..v }
    } else {
        v
    }
}

/// The first selected drive (select lines are active low), or 0 if none.
pub open spec fn spec_first_selected(selected: u8) -> int {
    if spec_drive_selected(selected, 0) {
        0
    } else if spec_drive_selected(selected, 1) {
        1
    } else if spec_drive_selected(selected, 2) {
        2
    } else if spec_drive_selected(selected, 3) {
        3
    } else {
        0
    }
}

impl FloppyController {
    /// Create a new floppy controller with all drives empty, none selected,
    /// the standard sync word `$4489` and compatible speed; DF0 reports the
    /// standard DD drive ID.
    pub fn new() -> (r: Self)
        ensures
            spec_floppy_wf(r@),
            r@.drives[0] == spec_empty_drive(0xFFFF_FFFF),
            forall|i: int| 1 <= i < 4 ==> r@.drives[i] == spec_empty_drive(0),
            r@.selected == 0x0F && r@.side == 0 && r@.direction == 0,
            !r@.prev_step && r@.prev_prb == 0xFF && r@.dsklen == 0 && r@.prev_dsklen == 0,
            r@.dma_state == DskDmaState::Off && !r@.dma_enable && r@.dsk_length == 0,
            r@.dsksync == 0x4489 && r@.word == 0 && r@.bit_offset == 0,
            !r@.pending_sync_irq && !r@.pending_blk_irq && r@.dskpt == 0 && r@.dskbytr_val == 0,
            r@.speed_percent == FLOPPY_SPEED_COMPATIBLE_PERCENT && r@.dma_word_accumulator == 0,
            r@.write_buffer.len() == 0,
    {
        let r = Self {
            drives: [empty_drive(0xFFFF_FFFF), empty_drive(0), empty_drive(0), empty_drive(0)],
            selected: 0x0F,
            side: 0,
            direction: 0,
            prev_step: false,
            prev_prb: 0xFF,
            dsklen: 0,
            prev_dsklen: 0,
            dma_state: DskDmaState::Off,
            dma_enable: false,
            dsk_length: 0,
            dsksync: 0x4489,
            word: 0,
            bit_offset: 0,
            pending_sync_irq: false,
            pending_blk_irq: false,
            dskpt: 0,
            dskbytr_val: 0,
            speed_percent: FLOPPY_SPEED_COMPATIBLE_PERCENT,
            dma_word_accumulator: 0,
            write_buffer: Vec::new(),
        };
        r
    }

    /// Returns the configured floppy speed percentage. `0` means turbo.
    pub fn speed_percent(&self) -> (r: u16)
        ensures
            r == self@.speed_percent,
    {
        self.speed_percent
    }

    /// Set the floppy speed percentage. Supported values are `0` (turbo),
    /// `100`, `200`, `400`, and `800`; others are refused and change nothing.
    /// A change restarts the word timing.
    pub fn set_speed_percent(&mut self, percent: u16) -> (r: bool)
        requires
            spec_floppy_wf(old(self)@),
        ensures
            r == spec_is_supported_speed(percent),
            r ==> final(self)@ == spec_set_speed(old(self)@, percent),
            !r ==> final(self)@ == old(self)@,
            spec_floppy_wf(final(self)@),
    {
        if !is_supported_floppy_speed_percent(percent) {
            return false;
        }
        self.speed_percent = percent;
        self.dma_word_accumulator = 0;
        true
    }

    /// Return how many MFM word cycles should run during this scanline: a
    /// fixed budget in turbo mode, otherwise one track per revolution scaled
    /// by the speed, with the fractional remainder carried to the next line.
    pub fn dma_word_cycles_for_scanline(&mut self) -> (r: usize)
        requires
            spec_floppy_wf(old(self)@),
        ensures
            spec_floppy_wf(final(self)@),
            (r as int, final(self)@) == spec_word_cycles(old(self)@),
    {
        if self.speed_percent == FLOPPY_SPEED_TURBO_PERCENT {
            return TURBO_DSK_WORD_CYCLES_PER_SCANLINE;
        }
        let denominator = PAL_SCANLINES_PER_FLOPPY_REVOLUTION * FLOPPY_SPEED_PERCENT_DENOMINATOR;
        self.dma_word_accumulator = self.dma_word_accumulator + MFM_TRACK_WORDS * (self.speed_percent as u32);
        let cycles = self.dma_word_accumulator / denominator;
        self.dma_word_accumulator = self.dma_word_accumulator % denominator;
        cycles as usize
    }

    /// Insert an ADF image into the specified drive (an index past DF3 is
    /// ignored). The drive reports a disk change and is not ready until it
    /// spins up again.
    pub fn insert_disk(&mut self, drive: usize, data: Vec<u8>)
        requires
            spec_floppy_wf(old(self)@),
        ensures
            spec_floppy_wf(final(self)@),
            final(self)@ == spec_insert_disk(old(self)@, drive as int, data@),
    {
        if drive < 4 {
            let d = &mut self.drives[drive];
            d.data = Some(data);
            d.mfm_track.clear();
            d.drive_id = 0xFFFF_FFFF;
            d.disk_changed = true;
            d.dskready = false;
        }
        proof {
            assert(self@.drives =~= spec_insert_disk(old(self)@, drive as int, data@).drives);
        }
    }
}

impl FloppyController {
    /// Handle a CIA-B port B write: drive select (bits 6-3, active low), side
    /// (bit 2), step direction (bit 1) and step pulse (bit 0), with the motor
    /// bit 7 latched on select edges.
    pub fn disk_select(&mut self, data: u8)
        requires
            spec_floppy_wf(old(self)@),
        ensures
            final(self)@ == spec_disk_select(old(self)@, data),
    {
        let prev_data = self.prev_prb;
        let prev_selected = self.selected;
        let prev_step = self.prev_step;
        self.prev_prb = data;
        self.selected = (data >> 3) & 0x0F;
        proof {
            assert((data >> 2u8) & 1 <= 1) by (bit_vector);
        }
        self.side = 1 - ((data >> 2) & 1);
        self.direction = (data >> 1) & 1;
        update_drives_after_port_write(&mut self.drives, prev_selected, prev_data, prev_step, data);
        self.prev_step = data & 1 != 0;
        proof {
            assert(self@.drives =~= spec_disk_select(old(self)@, data).drives);
        }
    }

    /// Write the DSKLEN register. A second consecutive write with bit 15 set
    /// starts DMA; a write with bit 15 clear aborts it.
    pub fn write_dsklen(&mut self, value: u16, adkcon: u16)
        requires
            spec_floppy_wf(old(self)@),
        ensures
            final(self)@ == spec_write_dsklen(old(self)@, value, adkcon),
    {
        let has_disk = self.drive_ready(0) || self.drive_ready(1) || self.drive_ready(2) || self.drive_ready(3);
        proof {
            if spec_has_selected_disk(old(self)@) {
                let dr = choose|dr: int| 0 <= dr < 4 && spec_drive_ready(old(self)@, dr);
                assert(dr == 0 || dr == 1 || dr == 2 || dr == 3);
            }
            if has_disk {
                assert(spec_drive_ready(old(self)@, 0) || spec_drive_ready(old(self)@, 1)
                    || spec_drive_ready(old(self)@, 2) || spec_drive_ready(old(self)@, 3));
            }
        }
        let prev = self.prev_dsklen;
        self.prev_dsklen = value;
        self.dsklen = value;
        if (value & 0x8000 != 0) && (prev & 0x8000 != 0) {
            if has_disk {
                if value & 0x4000 != 0 {
                    self.dma_state = DskDmaState::Write;
                    self.dsk_length = value & 0x3FFF;
                    self.write_buffer.clear();
                } else {
                    self.dma_state = DskDmaState::Read;
                    self.dma_enable = (adkcon & 0x0400) == 0;
                    self.dsk_length = value & 0x3FFF;
                    self.word = 0;
                    self.bit_offset = 0;
                }
            } else {
                self.dma_state = DskDmaState::Off;
                self.pending_sync_irq = true;
                self.pending_blk_irq = true;
            }
        } else if value & 0x8000 == 0 {
            self.dma_state = DskDmaState::Off;
            self.dma_enable = false;
        }
        proof {
            assert(self@.drives =~= spec_write_dsklen(old(self)@, value, adkcon).drives);
            assert(self@.write_buffer =~= spec_write_dsklen(old(self)@, value, adkcon).write_buffer);
        }
    }

    /// Write the high word of the disk DMA pointer (DSKPTH).
    pub fn set_dskpt_high(&mut self, value: u16)
        ensures
            final(self)@ == (FloppyView { dskpt: spec_with_high_word(old(self)@.dskpt, value), ..old(self)@ }),
    {
        self.dskpt = with_high_word(self.dskpt, value);
        proof {
            assert(self@.drives =~= old(self)@.drives);
        }
    }

    /// Write the low word of the disk DMA pointer (DSKPTL); bit 0 is ignored.
    pub fn set_dskpt_low(&mut self, value: u16)
        ensures
            final(self)@ == (FloppyView { dskpt: spec_with_low_word(old(self)@.dskpt, value), ..old(self)@ }),
    {
        self.dskpt = with_low_word(self.dskpt, value);
        proof {
            assert(self@.drives =~= old(self)@.drives);
        }
    }

    /// Write the DSKSYNC register.
    pub fn write_dsksync(&mut self, value: u16)
        ensures
            final(self)@ == (FloppyView { dsksync: value, ..old(self)@ }),
    {
        self.dsksync = value;
        proof {
            assert(self@.drives =~= old(self)@.drives);
        }
    }

    /// Whether drive `dr` is selected and holds a disk.
    fn drive_ready(&self, dr: usize) -> (r: bool)
        requires
            dr < 4,
        ensures
            r == spec_drive_ready(self@, dr as int),
    {
        self.selected & (1u8 << (dr as u8)) == 0 && self.drives[dr].data.is_some()
    }

    /// The lowest-numbered selected drive that holds a disk.
    fn first_disk_drive(&self) -> (r: Option<usize>)
        ensures
            match spec_first_disk_drive(self@) {
                Some(d) => r == Some(d as usize),
                None => r is None,
            },
    {
        if self.drive_ready(0) {
            Some(0)
        } else if self.drive_ready(1) {
            Some(1)
        } else if self.drive_ready(2) {
            Some(2)
        } else if self.drive_ready(3) {
            Some(3)
        } else {
            None
        }
    }

    /// Returns the first selected drive index (active low), or 0 if none.
    pub fn first_selected_drive(&self) -> (r: usize)
        ensures
            r == spec_first_selected(self@.selected),
            r < 4,
    {
        let mut dr: u8 = 0;
        while dr < 4
            invariant
                dr <= 4,
                forall|j: int| 0 <= j < dr ==> !spec_drive_selected(self.selected, j),
            decreases 4 - dr,
        {
            if self.selected & (1u8 << dr) == 0 {
                return dr as usize;
            }
            dr += 1;
        }
        0
    }

    /// Whether the first selected drive is at track 0.
    pub fn at_track0(&self) -> (r: bool)
        ensures
            r == (self@.drives[spec_first_selected(self@.selected)].cyl == 0),
    {
        let dr = self.first_selected_drive();
        self.drives[dr].cyl == 0
    }

    /// Whether the first selected drive holds a disk.
    pub fn has_disk(&self) -> (r: bool)
        ensures
            r == self@.drives[spec_first_selected(self@.selected)].data is Some,
    {
        let dr = self.first_selected_drive();
        self.drives[dr].data.is_some()
    }

    /// Whether the motor of the first selected drive is on.
    pub fn motor_on(&self) -> (r: bool)
        ensures
            r == self@.drives[spec_first_selected(self@.selected)].motor,
    {
        let dr = self.first_selected_drive();
        self.drives[dr].motor
    }

    /// The current drive ID bit of the first selected drive: bit
    /// `31 - id_shift_count` of its ID register (0 for a standard DD drive's
    /// leading bits, 1 for no drive or an HD drive).
    pub fn drive_id_bit(&self) -> (r: u8)
        requires
            self@.drives[spec_first_selected(self@.selected)].id_shift_count < 32,
        ensures
            ({
                let d = self@.drives[spec_first_selected(self@.selected)];
                r == (if d.drive_id & (1u32 << ((31 - d.id_shift_count) as u32)) != 0 { 1u8 } else { 0u8 })
            }),
    {
        let dr = self.first_selected_drive();
        let d = &self.drives[dr];
        if d.drive_id & (1u32 << ((31 - d.id_shift_count) as u32)) != 0 {
            1
        } else {
            0
        }
    }

    /// Whether any drive is currently selected.
    pub fn any_drive_selected(&self) -> (r: bool)
        ensures
            r == (self@.selected != 0x0F),
    {
        self.selected != 0x0F
    }

    /// The DSKBYTR value the controller presents.
    pub fn dskbytr_value(&self) -> (r: u16)
        ensures
            r == self@.dskbytr_val,
    {
        self.dskbytr_val
    }

    /// Whether every drive's MFM stream position and track length leave room
    /// for the next DMA word (see [`spec_floppy_stream_ok`]).
    pub fn streams_ok(&self) -> (r: bool)
        ensures
            r == spec_floppy_stream_ok(self@),
    {
        let mut i: usize = 0;
        while i < 4
            invariant
                i <= 4,
                forall|k: int|
                    0 <= k < i ==> self@.drives[k].mfm_pos < u32::MAX && self@.drives[k].mfm_track.len() <= u32::MAX,
            decreases 4 - i,
        {
            let d = &self.drives[i];
            assert(d@ == self@.drives[i as int]);
            if d.mfm_pos == u32::MAX || d.mfm_track.len() as u64 > u32::MAX as u64 {
                return false;
            }
            i += 1;
        }
        true
    }

    /// Whether the status lines can be read (see [`FloppyController::disk_status`]):
    /// a selected drive with its motor off has not shifted out more than its
    /// 32 ID bits.
    pub fn status_readable(&self) -> (r: bool)
        ensures
            r == (self@.selected != 0x0F && !self@.drives[spec_first_selected(self@.selected)].motor
                ==> self@.drives[spec_first_selected(self@.selected)].id_shift_count < 32),
    {
        if !self.any_drive_selected() {
            return true;
        }
        let dr = self.first_selected_drive();
        let d = &self.drives[dr];
        assert(d@ == self@.drives[dr as int]);
        d.motor || d.id_shift_count < 32
    }

    /// Advance floppy drive motor spin-up delays by one scanline.
    pub fn tick_scanline(&mut self)
        requires
            spec_floppy_wf(old(self)@),
        ensures
            final(self)@ == (FloppyView {
                drives: Seq::new(4, |i: int| spec_tick_drive(old(self)@.drives[i])),
                ..old(self)@
            }),
    {
        let mut i: usize = 0;
        while i < 4
            invariant
                i <= 4,
                forall|j: int| 0 <= j < i ==> self.drives@[j]@ == spec_tick_drive(old(self).drives@[j]@),
                forall|j: int| i <= j < 4 ==> self.drives@[j] == old(self).drives@[j],
                self.selected == old(self).selected && self.side == old(self).side,
                self.direction == old(self).direction && self.prev_step == old(self).prev_step,
                self.prev_prb == old(self).prev_prb && self.dsklen == old(self).dsklen,
                self.prev_dsklen == old(self).prev_dsklen && self.dma_state == old(self).dma_state,
                self.dma_enable == old(self).dma_enable && self.dsk_length == old(self).dsk_length,
                self.dsksync == old(self).dsksync && self.word == old(self).word,
                self.bit_offset == old(self).bit_offset && self.pending_sync_irq == old(self).pending_sync_irq,
                self.pending_blk_irq == old(self).pending_blk_irq && self.dskpt == old(self).dskpt,
                self.dskbytr_val == old(self).dskbytr_val && self.speed_percent == old(self).speed_percent,
                self.dma_word_accumulator == old(self).dma_word_accumulator,
                self.write_buffer@ == old(self).write_buffer@,
            decreases 4 - i,
        {
            tick_drive(&mut self.drives[i]);
            i += 1;
        }
        proof {
            assert(self@.drives =~= Seq::new(4, |i: int| spec_tick_drive(old(self)@.drives[i])));
        }
    }
}

fn select_edge(d: &mut DriveState, prev_data: u8, data: u8)
    ensures
        final(d)@ == spec_select_edge(old(d)@, prev_data, data),
{
    let c = d.id_shift_count;
    let id = if c == 255 { 0 } else { (c + 1) & 31 };
    proof {
        assert(c < 255 ==> ((c + 1) as u8) & 31 == (c + 1) % 32) by (bit_vector);
    }
    let next_motor = (prev_data & 0x80 == 0) || (data & 0x80 == 0);
    let prev_motor = d.motor;
    d.id_shift_count = id;
    d.motor = next_motor;
    if !prev_motor && next_motor {
        d.dskready_up_time = 5616;
        d.dskready = false;
    } else if prev_motor && !next_motor {
        d.id_shift_count = 0;
        d.dskready = false;
        d.dskready_up_time = 0;
    }
}

fn step_drive(d: &mut DriveState, direction: u8)
    ensures
        final(d)@ == spec_step_drive(old(d)@, direction),
{
    if direction != 0 {
        if d.cyl > 0 {
            d.cyl = d.cyl - 1;
        }
    } else if d.cyl < 79 {
        d.cyl = d.cyl + 1;
    }
    d.mfm_track.clear();
    if d.data.is_some() {
        d.disk_changed = false;
    }
}

fn tick_drive(d: &mut DriveState)
    ensures
        final(d)@ == spec_tick_drive(old(d)@),
{
    if d.dskready_up_time > 0 && d.data.is_some() {
        d.dskready_up_time = d.dskready_up_time - 1;
        if d.dskready_up_time == 0 && d.motor {
            d.dskready = true;
        }
    }
}

fn update_drives_after_port_write(drives: &mut [DriveState; 4], selected: u8, prev_prb: u8, prev_step: bool, data: u8)
    ensures
        forall|i: int| 0 <= i < 4 ==> #[trigger] final(drives)@[i]@
            == spec_drive_after_port_write(old(drives)@[i]@, i, selected, prev_prb, prev_step, data),
{
    let new_selected = (data >> 3) & 0x0F;
    let prev_selected = (prev_prb >> 3) & 0x0F;
    let step = data & 1 != 0 && !prev_step;
    let direction = (data >> 1) & 1;
    let mut dr: u8 = 0;
    while dr < 4
        invariant
            dr <= 4,
            new_selected == (data >> 3u8) & 0x0F,
            prev_selected == (prev_prb >> 3u8) & 0x0F,
            step == (data & 1 != 0 && !prev_step),
            direction == (data >> 1u8) & 1,
            forall|i: int| 0 <= i < dr ==> #[trigger] drives@[i]@
                == spec_drive_after_port_write(old(drives)@[i]@, i, selected, prev_prb, prev_step, data),
            forall|i: int| dr <= i < 4 ==> drives@[i] == old(drives)@[i],
        decreases 4 - dr,
    {
        let was_sel = selected & (1u8 << dr) == 0;
        let now_sel = new_selected & (1u8 << dr) == 0;
        if !was_sel && now_sel {
            select_edge(&mut drives[dr as usize], prev_prb, data);
        }
        if step && prev_selected & (1u8 << dr) == 0 {
            step_drive(&mut drives[dr as usize], direction);
        }
        dr += 1;
    }
}


/// Big-endian longword of the image at byte `idx`, or 0 where it would run
/// past the end of the image.
pub open spec fn spec_adf_long(adf: Seq<u8>, idx: int) -> u32 {
    if 0 <= idx && idx + 3 < adf.len() {
        (adf[idx] as int * 0x100_0000 + adf[idx + 1] as int * 0x1_0000 + adf[idx + 2] as int * 0x100
            + adf[idx + 3] as int) as u32
    } else {
        0
    }
}

/// The odd data bits of a longword, moved down into the MFM data positions.
pub open spec fn spec_mfm_odd(v: u32) -> u32 {
    (v >> 1u32) & 0x5555_5555
}

/// The even data bits of a longword, in the MFM data positions.
pub open spec fn spec_mfm_even(v: u32) -> u32 {
    v & 0x5555_5555
}

/// High word of a longword.
pub open spec fn spec_hi(v: u32) -> u16 {
    (v >> 16u32) as u16
}

/// Low word of a longword.
pub open spec fn spec_lo(v: u32) -> u16 {
    v as u16
}

/// `ws` with the odd half of `v` stored at `at` and its even half at `at + 2`.
pub open spec fn spec_put_long(ws: Seq<u16>, at: int, v: u32) -> Seq<u16> {
    ws.update(at, spec_hi(spec_mfm_odd(v))).update(at + 1, spec_lo(spec_mfm_odd(v))).update(
        at + 2,
        spec_hi(spec_mfm_even(v)),
    ).update(at + 3, spec_lo(spec_mfm_even(v)))
}

/// XOR of the first `k` longwords formed by consecutive word pairs of `ws`.
pub open spec fn spec_xor_pairs(ws: Seq<u16>, k: int) -> u32
    decreases k,
{
    if k <= 0 {
        0
    } else {
        spec_xor_pairs(ws, k - 1) ^ (((ws[2 * k - 2] as u32) << 16u32) | (ws[2 * k - 1] as u32))
    }
}

/// The `AmigaDOS` checksum of an MFM area: the XOR of its longwords.
pub open spec fn spec_mfm_checksum(ws: Seq<u16>) -> u32 {
    spec_xor_pairs(ws, (ws.len() / 2) as int)
}

/// Sector header longword: format byte `$FF`, track, sector, and sectors
/// left until the gap.
pub open spec fn spec_sector_header(track: u32, sector: u32) -> u32 {
    0xFF00_0000u32 | (track << 16u32) | (sector << 8u32) | ((11 - sector) as u32)
}

/// Byte offset of a sector in the image.
pub open spec fn spec_sector_offset(track: u32, sector: u32) -> int {
    track as int * TRACK_SIZE + sector as int * SECTOR_SIZE
}

/// The 545 raw words of a sector before its checksums are filled in: gap,
/// two sync words, the header split into odd and even bits, a zero label,
/// then the 512 data bytes as 128 odd longwords followed by 128 even ones.
pub open spec fn spec_sector_stage1(adf: Seq<u8>, track: u32, sector: u32) -> Seq<u16> {
    let h = spec_sector_header(track, sector);
    let base = spec_sector_offset(track, sector);
    Seq::new(
        545,
        |j: int|
            if j < 2 {
                0xAAAAu16
            } else if j < 4 {
                0x4489u16
            } else if j == 4 {
                spec_hi(spec_mfm_odd(h))
            } else if j == 5 {
                spec_lo(spec_mfm_odd(h))
            } else if j == 6 {
                spec_hi(spec_mfm_even(h))
            } else if j == 7 {
                spec_lo(spec_mfm_even(h))
            } else if j < 32 {
                0u16
            } else if j < 288 {
                let l = spec_adf_long(adf, base + 4 * ((j - 32) / 2));
                if (j - 32) % 2 == 0 { spec_hi(spec_mfm_odd(l)) } else { spec_lo(spec_mfm_odd(l)) }
            } else if j < 544 {
                let l = spec_adf_long(adf, base + 4 * ((j - 288) / 2));
                if (j - 288) % 2 == 0 { spec_hi(spec_mfm_even(l)) } else { spec_lo(spec_mfm_even(l)) }
            } else {
                0u16
            },
    )
}

/// The raw words of a sector with its header checksum (over words 4..24) and
/// data checksum (over words 32..544) filled in.
pub open spec fn spec_sector_raw(adf: Seq<u8>, track: u32, sector: u32) -> Seq<u16> {
    let s1 = spec_sector_stage1(adf, track, sector);
    let with_header = spec_put_long(s1, 24, spec_mfm_checksum(s1.subrange(4, 24)));
    spec_put_long(with_header, 28, spec_mfm_checksum(s1.subrange(32, 544)))
}

/// An MFM word: the data bits of `w` with a clock bit set between every two
/// zero data bits, `last` holding the previous word's data bits.
pub open spec fn spec_mfm_word(last: u32, w: u16) -> u16 {
    let value = (w as u32) & 0x5555_5555;
    let not_last_value = 0x5555_5555u32 & !((last << 16u32) | value);
    (value | ((not_last_value << 1u32) & (not_last_value >> 1u32))) as u16
}

/// `ws` with clock bits added to every word from `start` on, each word's
/// clocks depending on the data bits of the raw word before it.
pub open spec fn spec_mfmcode(ws: Seq<u16>, start: int) -> Seq<u16> {
    Seq::new(
        ws.len(),
        |j: int|
            if j < start {
                ws[j]
            } else {
                spec_mfm_word(if j == start { 0u32 } else { (ws[j - 1] as u32) & 0x5555_5555 }, ws[j])
            },
    )
}

/// The 545 encoded words of a sector: gap and sync words, then everything
/// from the header on with clock bits.
pub open spec fn spec_sector_words(adf: Seq<u8>, track: u32, sector: u32) -> Seq<u16> {
    spec_mfmcode(spec_sector_raw(adf, track, sector), 4)
}

/// The MFM track for cylinder `cyl` and side `side` of an ADF image: a gap of
/// `$AAAA` words, then the eleven 544-word sectors in order; a sector's first
/// gap word loses its top clock bit when the previous sector ends in a one
/// bit, and the word after the last sector wraps round to the start of the
/// track.
pub open spec fn spec_encode_mfm_track(adf: Seq<u8>, cyl: u8, side: u8) -> Seq<u16> {
    let t = (cyl as u32 * 2 + side as u32) as u32;
    Seq::new(
        MFM_TRACK_WORDS as nat,
        |i: int|
            if i == 0 {
                spec_sector_words(adf, t, 10)[544]
            } else if i < FLOPPY_GAP_WORDS {
                0xAAAAu16
            } else {
                let s = (i - FLOPPY_GAP_WORDS) / 544;
                let j = (i - FLOPPY_GAP_WORDS) % 544;
                if j == 0 && s > 0 && spec_sector_words(adf, t, (s - 1) as u32)[543] & 1 != 0 {
                    0x2AAAu16
                } else {
                    spec_sector_words(adf, t, s as u32)[j]
                }
            },
    )
}

fn encode_mfm_odd_raw(dst: &mut Vec<u16>, offset: usize, value: u32)
    requires
        offset + 1 < old(dst)@.len(),
    ensures
        final(dst)@ == old(dst)@.update(offset as int, spec_hi(spec_mfm_odd(value))).update(
            offset + 1,
            spec_lo(spec_mfm_odd(value)),
        ),
{
    let n = dst.len();
    let odd = (value >> 1) & 0x5555_5555;
    dst.set(offset, (odd >> 16) as u16);
    dst.set(offset + 1, odd as u16);
}

fn encode_mfm_even_raw(dst: &mut Vec<u16>, offset: usize, value: u32)
    requires
        offset + 1 < old(dst)@.len(),
    ensures
        final(dst)@ == old(dst)@.update(offset as int, spec_hi(spec_mfm_even(value))).update(
            offset + 1,
            spec_lo(spec_mfm_even(value)),
        ),
{
    let n = dst.len();
    let even = value & 0x5555_5555;
    dst.set(offset, (even >> 16) as u16);
    dst.set(offset + 1, even as u16);
}

fn encode_mfm_long_raw(dst: &mut Vec<u16>, offset: usize, value: u32)
    requires
        offset + 3 < old(dst)@.len(),
    ensures
        final(dst)@ == spec_put_long(old(dst)@, offset as int, value),
{
    let n = dst.len();
    encode_mfm_odd_raw(dst, offset, value);
    encode_mfm_even_raw(dst, offset + 2, value);
}

fn checksum_mfm_longs(words: &Vec<u16>, start: usize, end: usize) -> (r: u32)
    requires
        start <= end <= words@.len(),
        (end - start) % 2 == 0,
    ensures
        r == spec_mfm_checksum(words@.subrange(start as int, end as int)),
{
    let ghost sub = words@.subrange(start as int, end as int);
    let mut checksum: u32 = 0;
    let mut i: usize = start;
    while i < end
        invariant
            start <= i <= end <= words@.len(),
            (i - start) % 2 == 0,
            (end - start) % 2 == 0,
            sub == words@.subrange(start as int, end as int),
            checksum == spec_xor_pairs(sub, (i - start) / 2),
        decreases end - i,
    {
        let k = (i - start) / 2 + 1;
        assert(sub[2 * k - 2] == words@[i as int] && sub[2 * k - 1] == words@[i + 1]);
        checksum = checksum ^ (((words[i] as u32) << 16) | (words[i + 1] as u32));
        i = i + 2;
    }
    checksum
}

fn mfmcode(words: &mut Vec<u16>, start: usize)
    requires
        start <= old(words)@.len(),
    ensures
        final(words)@ == spec_mfmcode(old(words)@, start as int),
{
    let ghost w0 = words@;
    let mut last_word: u32 = 0;
    let mut i: usize = start;
    while i < words.len()
        invariant
            start <= i <= words@.len(),
            words@.len() == w0.len(),
            last_word == (if i == start { 0u32 } else { (w0[i - 1] as u32) & 0x5555_5555 }),
            forall|j: int| 0 <= j < i ==> words@[j] == spec_mfmcode(w0, start as int)[j],
            forall|j: int| i <= j < w0.len() ==> words@[j] == w0[j],
        decreases words@.len() - i,
    {
        let value = (words[i] as u32) & 0x5555_5555;
        let last_value = (last_word << 16) | value;
        let not_last_value = 0x5555_5555 & !last_value;
        let clock_bits = (not_last_value << 1) & (not_last_value >> 1);
        words.set(i, (value | clock_bits) as u16);
        last_word = value;
        i += 1;
    }
    assert(words@ =~= spec_mfmcode(w0, start as int));
}

fn adf_long(adf: &[u8], idx: usize) -> (r: u32)
    ensures
        r == spec_adf_long(adf@, idx as int),
{
    if idx < adf.len() && adf.len() - idx > 3 {
        (adf[idx] as u32) * 0x100_0000 + (adf[idx + 1] as u32) * 0x1_0000 + (adf[idx + 2] as u32) * 0x100
            + (adf[idx + 3] as u32)
    } else {
        0
    }
}

proof fn lemma_odd_even_zero()
    ensures
        spec_mfm_odd(0) == 0 && spec_mfm_even(0) == 0,
        spec_hi(0) == 0 && spec_lo(0) == 0,
{
    assert(((0u32 >> 1u32) & 0x5555_5555) == 0 && (0u32 & 0x5555_5555) == 0 && ((0u32 >> 16u32) as u16)
        == 0 && (0u32 as u16) == 0) by (bit_vector);
}

/// The encoded words of one sector.
fn encode_sector(adf: &[u8], track_number: u32, sector: u32) -> (r: Vec<u16>)
    requires
        sector < SECTORS_PER_TRACK,
        track_number < 0x1_0000,
    ensures
        r@ == spec_sector_words(adf@, track_number, sector),
{
    let ghost s1 = spec_sector_stage1(adf@, track_number, sector);
    let mut v: Vec<u16> = vec![0u16; MFM_WORDS_PER_SECTOR + 1];
    v.set(0, 0xAAAA);
    v.set(1, 0xAAAA);
    v.set(2, 0x4489);
    v.set(3, 0x4489);
    let header = 0xFF00_0000u32 | (track_number << 16) | (sector << 8) | (SECTORS_PER_TRACK - sector);
    encode_mfm_long_raw(&mut v, 4, header);
    let ghost tmpl = Seq::new(545, |j: int| if 32 <= j < 544 { 0u16 } else { s1[j] });
    assert(v@ =~= tmpl);
    let mut label: usize = 0;
    while label < 4
        invariant
            label <= 4,
            v@ == tmpl,
            tmpl == Seq::new(545, |j: int| if 32 <= j < 544 { 0u16 } else { s1[j] }),
            s1 == spec_sector_stage1(adf@, track_number, sector),
        decreases 4 - label,
    {
        proof {
            lemma_odd_even_zero();
        }
        encode_mfm_odd_raw(&mut v, 8 + label * 2, 0);
        encode_mfm_even_raw(&mut v, 16 + label * 2, 0);
        assert(v@ =~= tmpl);
        label += 1;
    }
    let header_checksum = checksum_mfm_longs(&v, 4, 24);
    assert(v@.subrange(4, 24) =~= s1.subrange(4, 24));
    encode_mfm_long_raw(&mut v, 24, header_checksum);
    let ghost raw1 = spec_put_long(s1, 24, header_checksum);
    let sec_offset = (track_number as usize) * (TRACK_SIZE as usize) + (sector as usize) * (SECTOR_SIZE as usize);
    let mut b: usize = 0;
    while b < 128
        invariant
            b <= 128,
            v@.len() == 545,
            sec_offset == spec_sector_offset(track_number, sector),
            raw1 == spec_put_long(s1, 24, header_checksum),
            s1 == spec_sector_stage1(adf@, track_number, sector),
            forall|j: int|
                0 <= j < 545 && !((32 + 2 * b <= j < 288) || (288 + 2 * b <= j < 544)) ==> v@[j] == raw1[j],
            forall|j: int| (32 + 2 * b <= j < 288) || (288 + 2 * b <= j < 544) ==> v@[j] == 0,
        decreases 128 - b,
    {
        let long = adf_long(adf, sec_offset + 4 * b);
        proof {
            let base = spec_sector_offset(track_number, sector);
            assert((32 + 2 * b - 32) / 2 == b && (32 + 2 * b - 32) % 2 == 0);
            assert((33 + 2 * b - 32) / 2 == b && (33 + 2 * b - 32) % 2 == 1);
            assert((288 + 2 * b - 288) / 2 == b && (288 + 2 * b - 288) % 2 == 0);
            assert((289 + 2 * b - 288) / 2 == b && (289 + 2 * b - 288) % 2 == 1);
            assert(raw1[32 + 2 * b] == s1[32 + 2 * b]);
            assert(raw1[33 + 2 * b] == s1[33 + 2 * b]);
            assert(raw1[288 + 2 * b] == s1[288 + 2 * b]);
            assert(raw1[289 + 2 * b] == s1[289 + 2 * b]);
        }
        encode_mfm_odd_raw(&mut v, 32 + 2 * b, long);
        encode_mfm_even_raw(&mut v, 288 + 2 * b, long);
        b += 1;
    }
    assert(v@ =~= raw1);
    let data_checksum = checksum_mfm_longs(&v, 32, 544);
    assert(v@.subrange(32, 544) =~= s1.subrange(32, 544));
    encode_mfm_long_raw(&mut v, 28, data_checksum);
    mfmcode(&mut v, 4);
    v
}

/// Encode one ADF track into standard `AmigaDOS` MFM format.
pub fn encode_mfm_track(adf: &[u8], cyl: u8, side: u8) -> (r: Vec<u16>)
    ensures
        r@ == spec_encode_mfm_track(adf@, cyl, side),
{
    let track_number = (cyl as u32) * 2 + (side as u32);
    let ghost target = spec_encode_mfm_track(adf@, cyl, side);
    let mut mfm: Vec<u16> = vec![0xAAAAu16; MFM_TRACK_WORDS as usize];
    let mut offset: usize = FLOPPY_GAP_WORDS;
    let mut prev_bit = false;
    let mut sector: u32 = 0;
    while sector < SECTORS_PER_TRACK
        invariant
            sector <= 11,
            track_number == (cyl as u32 * 2 + side as u32) as u32,
            target == spec_encode_mfm_track(adf@, cyl, side),
            mfm@.len() == 6334,
            offset == 350 + 544 * sector,
            prev_bit == (sector > 0 && spec_sector_words(adf@, track_number, (sector - 1) as u32)[543] & 1 != 0),
            sector < 11 ==> mfm@[0] == 0xAAAA,
            sector == 11 ==> mfm@[0] == target[0],
            forall|i: int| 1 <= i < 350 ==> mfm@[i] == 0xAAAA,
            forall|i: int| 350 <= i < offset ==> mfm@[i] == target[i],
            forall|i: int| offset < i < 6334 ==> mfm@[i] == 0xAAAA,
        decreases 11 - sector,
    {
        let sw = encode_sector(adf, track_number, sector);
        let ghost sw_spec = spec_sector_words(adf@, track_number, sector);
        let first = if prev_bit { 0x2AAAu16 } else { 0xAAAAu16 };
        let start = offset;
        let ghost before = mfm@;
        let mut k: usize = 0;
        while k < MFM_WORDS_PER_SECTOR
            invariant
                k <= 544,
                start + 544 <= 6334,
                offset == start + k,
                sw@.len() == 545,
                mfm@.len() == 6334,
                forall|i: int| 0 <= i < 6334 && !(start <= i < offset) ==> mfm@[i] == before[i],
                forall|i: int| start <= i < offset ==> mfm@[i] == (if i == start { first } else { sw@[i - start] }),
            decreases 544 - k,
        {
            let w = if k == 0 { first } else { sw[k] };
            mfm.set(offset % (MFM_TRACK_WORDS as usize), w);
            offset += 1;
            k += 1;
        }
        proof {
            assert forall|i: int| start <= i < offset implies mfm@[i] == target[i] by {
                lemma_track_position(sector as int, i - start);
            }
        }
        prev_bit = sw[MFM_WORDS_PER_SECTOR - 1] & 1 != 0;
        assert(sector < 10 ==> offset % 6334 == offset && offset != 0);
        assert(sector == 10 ==> offset % 6334 == 0);
        let ghost mid = mfm@;
        mfm.set(offset % (MFM_TRACK_WORDS as usize), sw[MFM_WORDS_PER_SECTOR]);
        proof {
            assert forall|i: int| 1 <= i < 350 implies mfm@[i] == 0xAAAA by {
                assert(mid[i] == before[i]);
            }
            assert forall|i: int| offset < i < 6334 implies mfm@[i] == 0xAAAA by {
                assert(mid[i] == before[i]);
            }
            assert forall|i: int| 350 <= i < offset implies mfm@[i] == target[i] by {
                assert(mfm@[i] == mid[i]);
            }
        }
        sector += 1;
    }
    assert(mfm@ =~= target);
    mfm
}

proof fn lemma_track_position(s: int, k: int)
    requires
        0 <= s,
        0 <= k < 544,
    ensures
        (350 + 544 * s + k - FLOPPY_GAP_WORDS) / 544 == s,
        (350 + 544 * s + k - FLOPPY_GAP_WORDS) % 544 == k,
{
    assert((544 * s + k) / 544 == s && (544 * s + k) % 544 == k) by (nonlinear_arith)
        requires
            0 <= s,
            0 <= k < 544,
    ;
}


/// The MFM data bits of the longword formed by words `at` and `at + 1`.
pub open spec fn spec_mfm_long(ws: Seq<u16>, at: int) -> u32 {
    (((ws[at] as u32) << 16u32) | (ws[at + 1] as u32)) & 0x5555_5555
}

/// A longword rebuilt from its odd-bit and even-bit MFM longwords.
pub open spec fn spec_mfm_decode(odd: u32, even: u32) -> u32 {
    (odd << 1u32) | even
}

/// Where the run of sync words starting at `offset` ends.
pub open spec fn spec_sync_run_end(ws: Seq<u16>, offset: int) -> int
    decreases ws.len() - offset,
{
    if 0 <= offset < ws.len() && ws[offset] == 0x4489 {
        spec_sync_run_end(ws, offset + 1)
    } else {
        offset
    }
}

/// The end of a sync run lies between its start and the end of the words.
pub proof fn lemma_sync_run_end(ws: Seq<u16>, offset: int)
    requires
        0 <= offset <= ws.len(),
    ensures
        offset <= spec_sync_run_end(ws, offset) <= ws.len(),
    decreases ws.len() - offset,
{
    if offset < ws.len() && ws[offset] == 0x4489 {
        lemma_sync_run_end(ws, offset + 1);
    }
}

/// `acc` XORed with, for each `l < k`, the MFM longwords at `at + 2l` and
/// `at + dist + 2l` (a longword's odd and even halves).
pub open spec fn spec_pair_fold(ws: Seq<u16>, at: int, dist: int, acc: u32, k: int) -> u32
    decreases k,
{
    if k <= 0 {
        acc
    } else {
        spec_pair_fold(ws, at, dist, acc, k - 1) ^ (spec_mfm_long(ws, at + 2 * (k - 1)) ^ spec_mfm_long(
            ws,
            at + dist + 2 * (k - 1),
        ))
    }
}

/// Byte `k` (big-endian) of a longword.
pub open spec fn spec_be_byte(v: u32, k: int) -> u8 {
    if k == 0 {
        (v >> 24u32) as u8
    } else if k == 1 {
        (v >> 16u32) as u8
    } else if k == 2 {
        (v >> 8u32) as u8
    } else {
        v as u8
    }
}

/// The 512 data bytes of a sector whose odd data longwords start at `at`,
/// the even ones 256 words later.
pub open spec fn spec_decoded_bytes(ws: Seq<u16>, at: int) -> Seq<u8> {
    Seq::new(
        512,
        |k: int|
            spec_be_byte(
                spec_mfm_decode(spec_mfm_long(ws, at + 2 * (k / 4)), spec_mfm_long(ws, at + 256 + 2 * (k / 4))),
                k % 4,
            ),
    )
}

/// `adf` with the 512 bytes `data` stored at `at`.
pub open spec fn spec_store_sector(adf: Seq<u8>, at: int, data: Seq<u8>) -> Seq<u8> {
    Seq::new(adf.len(), |i: int| if at <= i < at + 512 { data[i - at] } else { adf[i] })
}

/// Scan written MFM words from `offset` for `AmigaDOS` sectors: after a run
/// of at least two sync words come the sector ID, the label, the header and
/// data checksums and the data. Each sector with a valid number and both
/// checksums right is stored in the image at its place on this cylinder and
/// side, when that lies inside the image. Returns the image and whether any
/// sector was stored.
pub open spec fn spec_decode_scan(
    ws: Seq<u16>,
    offset: int,
    track_number: u32,
    adf: Seq<u8>,
    committed: bool,
) -> (Seq<u8>, bool)
    decreases ws.len() - offset,
{
    if !(0 <= offset && offset + 1 < ws.len()) {
        (adf, committed)
    } else if ws[offset] != 0x4489 || ws[offset + 1] != 0x4489 {
        spec_decode_scan(ws, offset + 1, track_number, adf, committed)
    } else {
        let o2 = spec_sync_run_end(ws, offset);
        proof {
            lemma_sync_run_end(ws, offset);
        }
        if o2 + 540 > ws.len() {
            (adf, committed)
        } else {
            let id_odd = spec_mfm_long(ws, o2);
            let id_even = spec_mfm_long(ws, o2 + 2);
            let sector = (spec_mfm_decode(id_odd, id_even) >> 8u32) & 0xFF;
            let o3 = o2 + 4;
            if sector >= SECTORS_PER_TRACK {
                spec_decode_scan(ws, o3, track_number, adf, committed)
            } else {
                let header_checksum = spec_pair_fold(ws, o3, 8, id_odd ^ id_even, 4);
                let expected_header = spec_mfm_decode(spec_mfm_long(ws, o3 + 16), spec_mfm_long(ws, o3 + 18));
                let o5 = o3 + 20;
                if header_checksum != expected_header {
                    spec_decode_scan(ws, o5, track_number, adf, committed)
                } else {
                    let expected_data = spec_mfm_decode(spec_mfm_long(ws, o5), spec_mfm_long(ws, o5 + 2));
                    let o6 = o5 + 4;
                    if spec_pair_fold(ws, o6, 256, 0, 128) != expected_data {
                        spec_decode_scan(ws, o6 + 512, track_number, adf, committed)
                    } else {
                        let at = track_number as int * TRACK_SIZE + sector as int * SECTOR_SIZE;
                        if at + 512 <= adf.len() {
                            spec_decode_scan(
                                ws,
                                o6 + 512,
                                track_number,
                                spec_store_sector(adf, at, spec_decoded_bytes(ws, o6)),
                                true,
                            )
                        } else {
                            spec_decode_scan(ws, o6 + 512, track_number, adf, committed)
                        }
                    }
                }
            }
        }
    }
}

/// Drive `dr` after the written MFM words are decoded into its image: the
/// stored sectors land in the image, which becomes dirty, and the cached
/// track is dropped.
pub open spec fn spec_write_decoded(v: FloppyView, dr: int) -> FloppyView {
    let d = v.drives[dr];
    match d.data {
        Some(adf) => {
            let track_number = (d.cyl as u32 * 2 + v.side as u32) as u32;
            let r = spec_decode_scan(v.write_buffer, 0, track_number, adf, false);
            FloppyView {
                drives: v.drives.update(
                    dr,
                    DriveView {
                        data: Some(r.0),
                        dirty: d.dirty || r.1,
                        mfm_track: if r.1 { Seq::empty() } else { d.mfm_track },
                        ..d
                    },
                ),
                ..v
            }
        },
        None => v,
    }
}

fn mfm_long(ws: &Vec<u16>, at: usize) -> (r: u32)
    requires
        at + 1 < ws@.len(),
    ensures
        r == spec_mfm_long(ws@, at as int),
{
    let n = ws.len();
    (((ws[at] as u32) << 16) | (ws[at + 1] as u32)) & 0x5555_5555
}

/// Decode the written MFM words into `adf`; returns whether a sector was stored.
fn decode_track_into(words: &Vec<u16>, adf: &mut Vec<u8>, track_number: u32) -> (committed: bool)
    requires
        track_number < 0x1_0000,
    ensures
        (final(adf)@, committed) == spec_decode_scan(words@, 0, track_number, old(adf)@, false),
{
    let ghost ws = words@;
    let ghost target = spec_decode_scan(ws, 0, track_number, adf@, false);
    let n = words.len();
    let mut committed = false;
    let mut offset: usize = 0;
    while offset < n && n - offset > 1
        invariant_except_break
            spec_decode_scan(ws, offset as int, track_number, adf@, committed) == target,
        invariant
            ws == words@,
            n == words@.len(),
            track_number < 0x1_0000,
            offset <= words@.len(),
        ensures
            (adf@, committed) == target,
        decreases words@.len() - offset,
    {
        if words[offset] != 0x4489 || words[offset + 1] != 0x4489 {
            offset += 1;
            continue;
        }
        let ghost sync_start = offset as int;
        proof {
            lemma_sync_run_end(ws, offset as int);
        }
        while offset < words.len() && words[offset] == 0x4489
            invariant
                ws == words@,
                sync_start <= offset <= words@.len(),
                spec_sync_run_end(ws, offset as int) == spec_sync_run_end(ws, sync_start),
            decreases words@.len() - offset,
        {
            offset += 1;
        }
        if n < 540 || offset > n - 540 {
            break;
        }
        let id_odd = mfm_long(words, offset);
        let id_even = mfm_long(words, offset + 2);
        let id = (id_odd << 1) | id_even;
        offset += 4;
        let sector = (id >> 8) & 0xFF;
        if sector >= SECTORS_PER_TRACK {
            continue;
        }
        let o3 = offset;
        let mut header_checksum = id_odd ^ id_even;
        let mut i: usize = 0;
        while i < 4
            invariant
                ws == words@,
                i <= 4,
                n == words@.len(),
                o3 + 536 <= words@.len(),
                header_checksum == spec_pair_fold(ws, o3 as int, 8, id_odd ^ id_even, i as int),
            decreases 4 - i,
        {
            let odd = mfm_long(words, o3 + i * 2);
            let even = mfm_long(words, o3 + 8 + i * 2);
            header_checksum = header_checksum ^ (odd ^ even);
            i += 1;
        }
        offset += 16;
        let chk_odd = mfm_long(words, offset);
        let chk_even = mfm_long(words, offset + 2);
        let expected_header_checksum = (chk_odd << 1) | chk_even;
        offset += 4;
        if header_checksum != expected_header_checksum {
            continue;
        }
        let data_chk_odd = mfm_long(words, offset);
        let data_chk_even = mfm_long(words, offset + 2);
        let expected_data_checksum = (data_chk_odd << 1) | data_chk_even;
        offset += 4;
        let o6 = offset;
        let mut data_checksum: u32 = 0;
        let mut sector_data: Vec<u8> = vec![0u8; 512];
        let mut long_idx: usize = 0;
        while long_idx < 128
            invariant
                ws == words@,
                long_idx <= 128,
                n == words@.len(),
                o6 + 512 <= words@.len(),
                sector_data@.len() == 512,
                data_checksum == spec_pair_fold(ws, o6 as int, 256, 0, long_idx as int),
                forall|k: int| 0 <= k < 4 * long_idx ==> sector_data@[k] == spec_decoded_bytes(ws, o6 as int)[k],
            decreases 128 - long_idx,
        {
            let odd = mfm_long(words, o6 + long_idx * 2);
            let even = mfm_long(words, o6 + 256 + long_idx * 2);
            data_checksum = data_checksum ^ (odd ^ even);
            let data = (odd << 1) | even;
            let b = long_idx * 4;
            sector_data.set(b, (data >> 24) as u8);
            sector_data.set(b + 1, (data >> 16) as u8);
            sector_data.set(b + 2, (data >> 8) as u8);
            sector_data.set(b + 3, data as u8);
            proof {
                assert forall|k: int| 4 * long_idx <= k < 4 * long_idx + 4 implies sector_data@[k]
                    == spec_decoded_bytes(ws, o6 as int)[k] by {
                    assert(k / 4 == long_idx);
                }
            }
            long_idx += 1;
        }
        offset += 512;
        if data_checksum != expected_data_checksum {
            continue;
        }
        let track_offset = (track_number * TRACK_SIZE + sector * SECTOR_SIZE) as usize;
        if track_offset <= adf.len() && adf.len() - track_offset >= 512 {
            let ghost before = adf@;
            let mut k: usize = 0;
            let alen = adf.len();
            while k < 512
                invariant
                    k <= 512,
                    alen == adf@.len(),
                    track_offset + 512 <= before.len(),
                    adf@.len() == before.len(),
                    sector_data@ == spec_decoded_bytes(ws, o6 as int),
                    forall|i: int| 0 <= i < before.len() ==> adf@[i] == (if track_offset <= i < track_offset + k {
                        sector_data@[i - track_offset]
                    } else {
                        before[i]
                    }),
                decreases 512 - k,
            {
                adf.set(track_offset + k, sector_data[k]);
                k += 1;
            }
            assert(adf@ =~= spec_store_sector(before, track_offset as int, spec_decoded_bytes(ws, o6 as int)));
            proof {
                assert(track_offset as int == track_number as int * TRACK_SIZE + sector as int * SECTOR_SIZE);
            }
            committed = true;
        }
    }
    committed
}

impl FloppyController {
    /// Decode the MFM words collected by write DMA as `AmigaDOS` sectors and
    /// commit each valid one to the disk image of drive `drv_idx`.
    fn write_decoded_track(&mut self, drv_idx: usize)
        requires
            drv_idx < 4,
        ensures
            final(self)@ == spec_write_decoded(old(self)@, drv_idx as int),
    {
        let track_number = (self.drives[drv_idx].cyl as u32) * 2 + (self.side as u32);
        let mut committed = false;
        if let Some(adf) = &mut self.drives[drv_idx].data {
            committed = decode_track_into(&self.write_buffer, adf, track_number);
        }
        if committed {
            self.drives[drv_idx].dirty = true;
            self.drives[drv_idx].mfm_track.clear();
        }
        proof {
            assert(self@.drives =~= spec_write_decoded(old(self)@, drv_idx as int).drives);
        }
    }
}


/// Chip RAM with the word `w` stored big-endian at `addr`, when both bytes
/// lie inside it.
pub open spec fn spec_store_word(ram: Seq<u8>, addr: int, w: u16) -> Seq<u8> {
    if 0 <= addr && addr + 1 < ram.len() {
        ram.update(addr, (w >> 8u16) as u8).update(addr + 1, (w & 0xFF) as u8)
    } else {
        ram
    }
}

/// Every drive's MFM position can advance and its track length fits the
/// 32-bit position counter.
pub open spec fn spec_floppy_stream_ok(v: FloppyView) -> bool {
    forall|i: int| 0 <= i < 4 ==> v.drives[i].mfm_pos < u32::MAX && v.drives[i].mfm_track.len() <= u32::MAX
}

/// One write-DMA word cycle: the next word of chip RAM is appended to the
/// written track; when the block is complete, DSKBLK is raised, DMA stops and
/// the written sectors are decoded into the disk image. With no selected disk
/// the block ends at once.
pub open spec fn spec_dma_write_cycle(v: FloppyView, ram: Seq<u8>) -> (FloppyView, Seq<u8>, bool) {
    match spec_first_disk_drive(v) {
        None => (FloppyView { dma_state: DskDmaState::Off, pending_blk_irq: true, ..v }, ram, false),
        Some(d) => {
            if v.dsk_length > 0 {
                let w = spec_word_at(ram, v.dskpt as int);
                let bytr = ((w & 0x00FF) | 0x8000 | 0x4000 | 0x2000 | (if w == v.dsksync { 0x1000u16 } else { 0u16 })) as u16;
                let remaining = (v.dsk_length - 1) as u16;
                let v1 = FloppyView {
                    write_buffer: v.write_buffer.push(w),
                    dskpt: vstd::wrapping::u32_specs::wrapping_add(v.dskpt, 2),
                    dsk_length: remaining,
                    dskbytr_val: bytr,
                    ..v
                };
                if remaining == 0 {
                    (
                        spec_write_decoded(
                            FloppyView { pending_blk_irq: true, dma_state: DskDmaState::Off, ..v1 },
                            d,
                        ),
                        ram,
                        true,
                    )
                } else {
                    (v1, ram, true)
                }
            } else {
                (v, ram, false)
            }
        },
    }
}

/// One read-DMA word cycle on the first selected drive with a disk: its MFM
/// track (encoded from the image if not cached) advances by one word, which
/// becomes DSKBYTR's low byte; the sync word enables the transfer and raises
/// DSKSYNC; while enabled, each word is stored in chip RAM, and the last one
/// raises DSKBLK and stops DMA.
pub open spec fn spec_dma_read_cycle(v: FloppyView, ram: Seq<u8>) -> (FloppyView, Seq<u8>, bool) {
    match spec_first_disk_drive(v) {
        None => (v, ram, false),
        Some(d) => {
            let drv = v.drives[d];
            let track = if drv.mfm_track.len() == 0 {
                spec_encode_mfm_track(drv.data.unwrap(), drv.cyl, v.side)
            } else {
                drv.mfm_track
            };
            let w = track[(drv.mfm_pos as int) % (track.len() as int)];
            let pos = ((drv.mfm_pos as int + 1) % (track.len() as int)) as u32;
            let bytr = ((w & 0x00FF) | 0x8000 | (if v.dma_state != DskDmaState::Off { 0x4000u16 } else { 0u16 })
                | (if v.dsklen & 0x4000 != 0 { 0x2000u16 } else { 0u16 }) | (if w == v.dsksync {
                0x1000u16
            } else {
                0u16
            })) as u16;
            let sync = !v.dma_enable && w == v.dsksync;
            let v1 = FloppyView {
                drives: v.drives.update(d, DriveView { mfm_track: track, mfm_pos: pos, ..drv }),
                word: w,
                dskbytr_val: bytr,
                dma_enable: v.dma_enable || sync,
                pending_sync_irq: v.pending_sync_irq || sync,
                ..v
            };
            if v1.dma_enable && v.dsk_length > 0 {
                let remaining = (v.dsk_length - 1) as u16;
                let v2 = FloppyView {
                    dskpt: vstd::wrapping::u32_specs::wrapping_add(v.dskpt, 2),
                    dsk_length: remaining,
                    ..v1
                };
                let ram2 = spec_store_word(ram, v.dskpt as int, w);
                if remaining == 0 {
                    (
                        FloppyView { pending_blk_irq: true, dma_state: DskDmaState::Off, dma_enable: false, ..v2 },
                        ram2,
                        true,
                    )
                } else {
                    (v2, ram2, true)
                }
            } else {
                (v1, ram, false)
            }
        },
    }
}

/// One disk DMA word cycle: the controller, chip RAM, and whether chip RAM
/// was accessed.
pub open spec fn spec_dma_cycle(v: FloppyView, ram: Seq<u8>) -> (FloppyView, Seq<u8>, bool) {
    if v.dma_state == DskDmaState::Write {
        spec_dma_write_cycle(v, ram)
    } else if v.dma_state != DskDmaState::Read {
        (v, ram, false)
    } else {
        spec_dma_read_cycle(v, ram)
    }
}

impl FloppyController {
    /// Execute one disk DMA word cycle (once per 2 µs word time). Returns
    /// whether chip RAM was accessed, for DMA slot accounting.
    pub fn disk_dma_cycle(&mut self, chip_ram: &mut [u8]) -> (accessed: bool)
        requires
            spec_floppy_wf(old(self)@),
            spec_floppy_stream_ok(old(self)@),
        ensures
            (final(self)@, final(chip_ram)@, accessed) == spec_dma_cycle(old(self)@, old(chip_ram)@),
            spec_floppy_wf(final(self)@),
            final(chip_ram)@.len() == old(chip_ram)@.len(),
    {
        if self.dma_state == DskDmaState::Write {
            return self.dma_write_cycle(chip_ram);
        }
        if self.dma_state != DskDmaState::Read {
            return false;
        }
        self.dma_read_cycle(chip_ram)
    }

    fn dma_write_cycle(&mut self, chip_ram: &mut [u8]) -> (accessed: bool)
        requires
            spec_floppy_wf(old(self)@),
        ensures
            (final(self)@, final(chip_ram)@, accessed) == spec_dma_write_cycle(old(self)@, old(chip_ram)@),
            spec_floppy_wf(final(self)@),
    {
        let drv = self.first_disk_drive();
        let drv_idx = match drv {
            Some(d) => d,
            None => {
                self.dma_state = DskDmaState::Off;
                self.pending_blk_irq = true;
                proof {
                    assert(self@.drives =~= old(self)@.drives);
                }
                return false;
            },
        };
        if self.dsk_length > 0 {
            let mfm_word = word_at(chip_ram, self.dskpt as u64);
            self.write_buffer.push(mfm_word);
            self.dskpt = self.dskpt.wrapping_add(2);
            self.dsk_length = self.dsk_length - 1;
            let sync_bit: u16 = if mfm_word == self.dsksync { 0x1000 } else { 0 };
            self.dskbytr_val = (mfm_word & 0x00FF) | 0x8000 | 0x4000 | 0x2000 | sync_bit;
            if self.dsk_length == 0 {
                self.pending_blk_irq = true;
                self.dma_state = DskDmaState::Off;
                proof {
                    assert(self@.drives =~= old(self)@.drives);
                }
                self.write_decoded_track(drv_idx);
            }
            proof {
                assert(self@.drives =~= spec_dma_write_cycle(old(self)@, old(chip_ram)@).0.drives);
            }
            return true;
        }
        false
    }

    fn dma_read_cycle(&mut self, chip_ram: &mut [u8]) -> (accessed: bool)
        requires
            spec_floppy_wf(old(self)@),
            spec_floppy_stream_ok(old(self)@),
            old(self)@.dma_state == DskDmaState::Read,
        ensures
            (final(self)@, final(chip_ram)@, accessed) == spec_dma_read_cycle(old(self)@, old(chip_ram)@),
            spec_floppy_wf(final(self)@),
    {
        let drv_idx = match self.first_disk_drive() {
            Some(d) => d,
            None => {
                return false;
            },
        };
        let side = self.side;
        let ghost v0 = self@;
        let ghost d0 = v0.drives[drv_idx as int];
        let ghost track = if d0.mfm_track.len() == 0 {
            spec_encode_mfm_track(d0.data.unwrap(), d0.cyl, v0.side)
        } else {
            d0.mfm_track
        };
        let drv = &mut self.drives[drv_idx];
        if drv.mfm_track.len() == 0 {
            if let Some(data) = &drv.data {
                drv.mfm_track = encode_mfm_track(data.as_slice(), drv.cyl, side);
            }
        }
        assert(drv.mfm_track@ == track);
        let track_len = drv.mfm_track.len() as u32;
        let mfm_word = drv.mfm_track[(drv.mfm_pos as usize) % (track_len as usize)];
        drv.mfm_pos = (drv.mfm_pos + 1) % track_len;
        assert(drv@ == (DriveView { mfm_track: track, mfm_pos: drv.mfm_pos, ..d0 }));
        self.word = mfm_word;
        let dmaon: u16 = if self.dma_state != DskDmaState::Off { 0x4000 } else { 0 };
        let write_bit: u16 = if self.dsklen & 0x4000 != 0 { 0x2000 } else { 0 };
        let sync_bit: u16 = if mfm_word == self.dsksync { 0x1000 } else { 0 };
        self.dskbytr_val = (mfm_word & 0x00FF) | 0x8000 | dmaon | write_bit | sync_bit;
        if !self.dma_enable && mfm_word == self.dsksync {
            self.dma_enable = true;
            self.pending_sync_irq = true;
        }
        proof {
            assert(self@.drives =~= spec_dma_read_cycle(v0, old(chip_ram)@).0.drives);
        }
        if self.dma_enable && self.dsk_length > 0 {
            store_word(chip_ram, self.dskpt, mfm_word);
            self.dskpt = self.dskpt.wrapping_add(2);
            self.dsk_length = self.dsk_length - 1;
            if self.dsk_length == 0 {
                self.pending_blk_irq = true;
                self.dma_state = DskDmaState::Off;
                self.dma_enable = false;
            }
            return true;
        }
        false
    }
}

fn store_word(ram: &mut [u8], addr: u32, w: u16)
    ensures
        final(ram)@ == spec_store_word(old(ram)@, addr as int, w),
{
    let a = addr as usize;
    if a < ram.len() && ram.len() - a > 1 {
        ram[a] = (w >> 8) as u8;
        ram[a + 1] = (w & 0xFF) as u8;
    }
}


/// Splitting a longword into its odd and even MFM data bits and joining them
/// again gives back the longword.
pub proof fn law_mfm_long_round_trip(v: u32)
    ensures
        spec_mfm_decode(spec_mfm_odd(v), spec_mfm_even(v)) == v,
{
    assert((((v >> 1u32) & 0x5555_5555) << 1u32) | (v & 0x5555_5555) == v) by (bit_vector);
}

/// Adding clock bits never changes the data bits of an MFM word.
pub proof fn law_mfm_clock_keeps_data(last: u32, w: u16)
    ensures
        (spec_mfm_word(last, w) as u32) & 0x5555_5555 == (w as u32) & 0x5555_5555,
{
    let value = (w as u32) & 0x5555_5555;
    let not_last_value = 0x5555_5555u32 & !((last << 16u32) | value);
    assert((((value | ((not_last_value << 1u32) & (not_last_value >> 1u32))) as u16) as u32) & 0x5555_5555
        == (w as u32) & 0x5555_5555) by (bit_vector)
        requires
            value == (w as u32) & 0x5555_5555,
            not_last_value == 0x5555_5555u32 & !((last << 16u32) | value),
    ;
}

/// A step inward followed by a step outward brings a drive below the last
/// cylinder back to where it was.
pub proof fn law_step_in_then_out(d: DriveView)
    requires
        d.cyl < 79,
    ensures
        spec_step_drive(spec_step_drive(d, 0), 1).cyl == d.cyl,
{
}

/// Word cycles summed over `n` scanlines at a fixed speed.
pub open spec fn spec_cycles_over(v: FloppyView, n: nat) -> (int, FloppyView)
    decreases n,
{
    if n == 0 {
        (0, v)
    } else {
        let prev = spec_cycles_over(v, (n - 1) as nat);
        let step = spec_word_cycles(prev.1);
        (prev.0 + step.0, step.1)
    }
}

/// At a non-turbo speed, the word cycles handed out over `n` scanlines, plus
/// the remainder left over, account exactly for `n` scanlines' share of the
/// track at that speed: no word is lost or invented.
pub proof fn law_word_cycles_conserved(v: FloppyView, n: nat)
    requires
        spec_floppy_wf(v),
        v.speed_percent != 0,
    ensures
        spec_cycles_over(v, n).0 * spec_speed_denominator() + spec_cycles_over(v, n).1.dma_word_accumulator
            == v.dma_word_accumulator + n * (MFM_TRACK_WORDS * v.speed_percent),
        spec_floppy_wf(spec_cycles_over(v, n).1),
        spec_cycles_over(v, n).1.speed_percent == v.speed_percent,
    decreases n,
{
    if n > 0 {
        law_word_cycles_conserved(v, (n - 1) as nat);
        let prev = spec_cycles_over(v, (n - 1) as nat);
        let total = prev.1.dma_word_accumulator + MFM_TRACK_WORDS * prev.1.speed_percent;
        assert(total == (total / 312000) * 312000 + total % 312000);
        assert((n - 1) * (MFM_TRACK_WORDS * v.speed_percent) + MFM_TRACK_WORDS * v.speed_percent == n * (
        MFM_TRACK_WORDS * v.speed_percent)) by (nonlinear_arith);
    }
}

/// Starting from a fresh timing, one revolution (3120 PAL scanlines) at a
/// non-turbo speed of `p` percent streams exactly `p / 100` tracks of words.
pub proof fn law_revolution_streams_speed_tracks(v: FloppyView)
    requires
        spec_floppy_wf(v),
        v.speed_percent != 0,
        v.dma_word_accumulator == 0,
    ensures
        spec_cycles_over(v, PAL_SCANLINES_PER_FLOPPY_REVOLUTION as nat).0 == MFM_TRACK_WORDS * v.speed_percent
            / 100,
{
    let n = PAL_SCANLINES_PER_FLOPPY_REVOLUTION as nat;
    law_word_cycles_conserved(v, n);
    let r = spec_cycles_over(v, n);
    let p = v.speed_percent as int;
    assert(p == 100 || p == 200 || p == 400 || p == 800);
    assert(r.0 * 312000 + r.1.dma_word_accumulator == 3120 * (6334 * p));
    assert(0 <= r.1.dma_word_accumulator < 312000);
    assert(r.0 == 6334 * p / 100) by (nonlinear_arith)
        requires
            r.0 * 312000 + r.1.dma_word_accumulator == 3120 * (6334 * p),
            0 <= r.1.dma_word_accumulator < 312000,
            p == 100 || p == 200 || p == 400 || p == 800,
    ;
}

/// The disk status bits of CIA-A port A (active low): with a drive selected,
/// track 0 (bit 4), disk change or no disk (bit 2), and ready (bit 5: motor
/// on and spun up, or with the motor off the drive's ID bit); all high
/// otherwise.
pub open spec fn spec_disk_status(f: FloppyView) -> u8 {
    if f.selected == 0x0F {
        0x3C
    } else {
        let d = f.drives[spec_first_selected(f.selected)];
        let track0: int = if d.cyl == 0 { 0x10 } else { 0 };
        let change: int = if d.data is None || d.disk_changed { 0x04 } else { 0 };
        let ready: int = if d.motor {
            if d.dskready { 0x20 } else { 0 }
        } else if d.drive_id & (1u32 << ((31 - d.id_shift_count) as u32)) != 0 {
            0x20
        } else {
            0
        };
        (0x3C - track0 - change - ready) as u8
    }
}

/// Interrupt requests the floppy controller has pending, as INTREQ bits
/// (disk sync and disk block done).
pub open spec fn spec_floppy_interrupts(f: FloppyView) -> u16 {
    (if f.pending_sync_irq { INT_DSKSYN } else { 0u16 }) | (if f.pending_blk_irq { INT_DSKBLK } else { 0u16 })
}


impl FloppyController {
    /// The disk status byte the CPU reads from CIA-A port A bits 2–5.
    pub fn disk_status(&self) -> (r: u8)
        requires
            self@.selected != 0x0F && !self@.drives[spec_first_selected(self@.selected)].motor
                ==> self@.drives[spec_first_selected(self@.selected)].id_shift_count < 32,
        ensures
            r == spec_disk_status(self@),
    {
        if !self.any_drive_selected() {
            return 0x3C;
        }
        let dr = self.first_selected_drive();
        let d = &self.drives[dr];
        assert(d@ == self@.drives[dr as int]);
        let mut st: u8 = 0x3C;
        if d.cyl == 0 {
            st = st - 0x10;
        }
        if d.data.is_none() || d.disk_changed {
            st = st - 0x04;
        }
        if d.motor {
            if d.dskready {
                st = st - 0x20;
            }
        } else if self.drive_id_bit() != 0 {
            st = st - 0x20;
        }
        st
    }

    /// Take the floppy controller's pending interrupts, as INTREQ bits to raise.
    pub fn take_interrupts(&mut self) -> (r: u16)
        ensures
            r == spec_floppy_interrupts(old(self)@),
            final(self)@ == (FloppyView { pending_sync_irq: false, pending_blk_irq: false, ..old(self)@ }),
    {
        let sync: u16 = if self.pending_sync_irq { INT_DSKSYN } else { 0 };
        let blk: u16 = if self.pending_blk_irq { INT_DSKBLK } else { 0 };
        self.pending_sync_irq = false;
        self.pending_blk_irq = false;
        proof {
            assert(self@.drives =~= old(self)@.drives);
        }
        sync | blk
    }
}


/// The 512 bytes of sector slot `sector` of track `track` in an image.
pub open spec fn spec_sector_slot(adf: Seq<u8>, track: int, sector: int) -> Seq<u8> {
    adf.subrange(track * TRACK_SIZE + sector * SECTOR_SIZE, track * TRACK_SIZE + sector * SECTOR_SIZE + 512)
}

/// The sector number in the ID longword of an MFM sector whose data starts
/// at word `o` (the ID lies 28 words earlier).
pub open spec fn spec_sector_id_at(ws: Seq<u16>, o: int) -> u32 {
    (spec_mfm_decode(spec_mfm_long(ws, o - 28), spec_mfm_long(ws, o - 26)) >> 8u32) & 0xFF
}

/// `adf` differs from `adf0` only inside track `track`, and there only in
/// whole sector slots, each holding the data of a sector of `ws` whose ID
/// names that slot.
pub open spec fn spec_track_local(ws: Seq<u16>, track: int, adf0: Seq<u8>, adf: Seq<u8>) -> bool {
    &&& adf.len() == adf0.len()
    &&& forall|i: int|
        0 <= i < adf0.len() && !(track * TRACK_SIZE <= i < track * TRACK_SIZE + TRACK_SIZE) ==> #[trigger] adf[i]
            == adf0[i]
    &&& forall|sector: int|
        0 <= sector < SECTORS_PER_TRACK && track * TRACK_SIZE + sector * SECTOR_SIZE + 512 <= adf0.len()
            ==> #[trigger] spec_sector_slot(adf, track, sector) == spec_sector_slot(adf0, track, sector) || exists|o: int|
            spec_sector_slot(adf, track, sector) == spec_decoded_bytes(ws, o) && #[trigger] spec_sector_id_at(ws, o)
                == sector
}

proof fn lemma_decode_scan_local(ws: Seq<u16>, offset: int, track_number: u32, adf0: Seq<u8>, adf: Seq<u8>, committed: bool)
    requires
        spec_track_local(ws, track_number as int, adf0, adf),
    ensures
        spec_track_local(ws, track_number as int, adf0, spec_decode_scan(ws, offset, track_number, adf, committed).0),
    decreases ws.len() - offset,
{
    let t = track_number as int;
    if !(0 <= offset && offset + 1 < ws.len()) {
    } else if ws[offset] != 0x4489 || ws[offset + 1] != 0x4489 {
        lemma_decode_scan_local(ws, offset + 1, track_number, adf0, adf, committed);
    } else {
        let o2 = spec_sync_run_end(ws, offset);
        lemma_sync_run_end(ws, offset);
        if o2 + 540 > ws.len() {
        } else {
            let id_odd = spec_mfm_long(ws, o2);
            let id_even = spec_mfm_long(ws, o2 + 2);
            let sector = (spec_mfm_decode(id_odd, id_even) >> 8u32) & 0xFF;
            let o3 = o2 + 4;
            if sector >= SECTORS_PER_TRACK {
                lemma_decode_scan_local(ws, o3, track_number, adf0, adf, committed);
            } else {
                let header_checksum = spec_pair_fold(ws, o3, 8, id_odd ^ id_even, 4);
                let expected_header = spec_mfm_decode(spec_mfm_long(ws, o3 + 16), spec_mfm_long(ws, o3 + 18));
                let o5 = o3 + 20;
                if header_checksum != expected_header {
                    lemma_decode_scan_local(ws, o5, track_number, adf0, adf, committed);
                } else {
                    let expected_data = spec_mfm_decode(spec_mfm_long(ws, o5), spec_mfm_long(ws, o5 + 2));
                    let o6 = o5 + 4;
                    if spec_pair_fold(ws, o6, 256, 0, 128) != expected_data {
                        lemma_decode_scan_local(ws, o6 + 512, track_number, adf0, adf, committed);
                    } else {
                        let at = t * TRACK_SIZE + sector as int * SECTOR_SIZE;
                        if at + 512 <= adf.len() {
                            let data = spec_decoded_bytes(ws, o6);
                            let adf2 = spec_store_sector(adf, at, data);
                            assert(spec_sector_id_at(ws, o6) == sector);
                            assert forall|sec: int|
                                0 <= sec < SECTORS_PER_TRACK && t * TRACK_SIZE + sec * SECTOR_SIZE + 512 <= adf0.len()
                                    implies #[trigger] spec_sector_slot(adf2, t, sec) == spec_sector_slot(adf0, t, sec)
                                || exists|o: int|
                                spec_sector_slot(adf2, t, sec) == spec_decoded_bytes(ws, o) && #[trigger] spec_sector_id_at(
                                    ws,
                                    o,
                                ) == sec by {
                                if sec == sector {
                                    assert(spec_sector_slot(adf2, t, sec) =~= data);
                                } else {
                                    assert(spec_sector_slot(adf2, t, sec) =~= spec_sector_slot(adf, t, sec));
                                }
                            }
                            assert(spec_track_local(ws, t, adf0, adf2));
                            lemma_decode_scan_local(ws, o6 + 512, track_number, adf0, adf2, true);
                        } else {
                            lemma_decode_scan_local(ws, o6 + 512, track_number, adf0, adf, committed);
                        }
                    }
                }
            }
        }
    }
}

/// Writing a track back into a disk image touches only the track under the
/// head, `cyl * 2 + side`, and there only whole sector slots: each holds the
/// data of a written sector whose ID names that slot, so a decoded sector
/// `n` lands at byte `((cyl * 2 + side) * 11 + n) * 512`. Every other track,
/// and every other drive, is unchanged.
pub proof fn law_write_back_stays_on_track(v: FloppyView, dr: int)
    requires
        0 <= dr < v.drives.len(),
        v.drives[dr].data is Some,
    ensures
        ({
            let d = v.drives[dr];
            let t = d.cyl as int * 2 + v.side as int;
            let adf = d.data->0;
            let w = spec_write_decoded(v, dr);
            &&& w.drives.len() == v.drives.len()
            &&& forall|j: int| 0 <= j < v.drives.len() && j != dr ==> w.drives[j] == v.drives[j]
            &&& w.drives[dr].data is Some
            &&& spec_track_local(v.write_buffer, t, adf, w.drives[dr].data->0)
        }),
{
    let d = v.drives[dr];
    let adf = d.data->0;
    let track_number: u32 = (2 * d.cyl as u32 + v.side as u32) as u32;
    assert(track_number as int == d.cyl as int * 2 + v.side as int);
    assert forall|sector: int|
        0 <= sector < SECTORS_PER_TRACK && track_number as int * TRACK_SIZE + sector * SECTOR_SIZE + 512 <= adf.len()
            implies #[trigger] spec_sector_slot(adf, track_number as int, sector) == spec_sector_slot(
            adf,
            track_number as int,
            sector,
        ) || exists|o: int|
        spec_sector_slot(adf, track_number as int, sector) == spec_decoded_bytes(v.write_buffer, o)
            && #[trigger] spec_sector_id_at(v.write_buffer, o) == sector by {}
    assert(spec_track_local(v.write_buffer, track_number as int, adf, adf));
    lemma_decode_scan_local(v.write_buffer, 0, track_number, adf, adf, false);
}

/// The word cycle that completes a disk write DMA block decodes the
/// written words into the image of the first selected drive holding a disk,
/// only on the track under its head (`cyl * 2 + side`, see
/// [`law_write_back_stays_on_track`]); the other drives are untouched.
pub proof fn law_disk_write_lands_on_head_track(v: FloppyView, ram: Seq<u8>)
    requires
        v.drives.len() == 4,
        v.dma_state == DskDmaState::Write,
        spec_first_disk_drive(v) is Some,
        v.dsk_length == 1,
    ensures
        ({
            let dr = spec_first_disk_drive(v)->0;
            let d = v.drives[dr];
            let written = v.write_buffer.push(spec_word_at(ram, v.dskpt as int));
            let r = spec_dma_cycle(v, ram).0;
            &&& r.drives.len() == 4
            &&& forall|j: int| 0 <= j < 4 && j != dr ==> r.drives[j] == v.drives[j]
            &&& r.drives[dr].data is Some
            &&& spec_track_local(written, d.cyl as int * 2 + v.side as int, d.data->0, r.drives[dr].data->0)
        }),
{
    let dr = spec_first_disk_drive(v)->0;
    let w = spec_word_at(ram, v.dskpt as int);
    let bytr = ((w & 0x00FF) | 0x8000 | 0x4000 | 0x2000 | (if w == v.dsksync { 0x1000u16 } else { 0u16 })) as u16;
    let v1 = FloppyView {
        write_buffer: v.write_buffer.push(w),
        dskpt: vstd::wrapping::u32_specs::wrapping_add(v.dskpt, 2),
        dsk_length: 0,
        dskbytr_val: bytr,
        pending_blk_irq: true,
        dma_state: DskDmaState::Off,
        ..v
    };
    law_write_back_stays_on_track(v1, dr);
}

} // verus!
