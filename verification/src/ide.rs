//! Gayle ATA/IDE controller: the taskfile registers, PIO sector transfers
//! against an in-memory hardfile, IDENTIFY DEVICE, and hardfile geometry
//! from an Amiga Rigid Disk Block or the IDE fallback translation.

use vstd::prelude::*;

use crate::a2065::copy_bytes;
use crate::floppy::spec_opt_bytes;

verus! {

/// ATA status: busy.
pub const IDE_STATUS_BSY: u8 = 0x80;
/// ATA status: drive ready.
pub const IDE_STATUS_DRDY: u8 = 0x40;
/// ATA status: drive fault.
pub const IDE_STATUS_DF: u8 = 0x20;
/// ATA status: seek complete.
pub const IDE_STATUS_DSC: u8 = 0x10;
/// ATA status: data request.
pub const IDE_STATUS_DRQ: u8 = 0x08;
/// ATA status: error.
pub const IDE_STATUS_ERR: u8 = 0x01;

/// Bytes per ATA sector.
pub const ATA_SECTOR_SIZE: usize = 512;
/// Heads of the IDE fallback translation.
pub const IDE_FALLBACK_HEADS: u8 = 16;
/// Sectors per track of the IDE fallback translation.
pub const IDE_FALLBACK_SECTORS_PER_TRACK: u16 = 63;
/// Largest cylinder count of the IDE fallback translation.
pub const IDE_FALLBACK_MAX_CYLINDERS: u16 = 16_383;
/// Sectors per cylinder of the IDE fallback translation (16 heads of 63 sectors).
pub const IDE_FALLBACK_SECTORS_PER_CYLINDER: u64 = 1008;
/// Blocks searched for a Rigid Disk Block.
pub const RDB_SCAN_BLOCKS: usize = 16;
/// Largest Rigid Disk Block checksum area accepted.
pub const RDB_MAX_CHECKSUM_BYTES: usize = 65_536;
/// Offset of the checksummed longword count in a Rigid Disk Block.
pub const RDB_CHECKSUM_LONGWORDS_OFFSET: usize = 4;
/// Offset of the block size in a Rigid Disk Block.
pub const RDB_BLOCK_BYTES_OFFSET: usize = 16;
/// Offset of the cylinder count in a Rigid Disk Block.
pub const RDB_CYLINDERS_OFFSET: usize = 64;
/// Offset of the sectors per track in a Rigid Disk Block.
pub const RDB_SECTORS_OFFSET: usize = 68;
/// Offset of the head count in a Rigid Disk Block.
pub const RDB_HEADS_OFFSET: usize = 72;

/// Direction of the active PIO data transfer.
#[derive(Debug, Clone, Copy, PartialEq, Eq, Structural)]
pub enum DataDirection {
    /// No transfer in progress.
    Idle,
    Read,
    Write,
}

/// Source of the currently active HDF CHS translation.
#[derive(Debug, Clone, Copy, PartialEq, Eq, Structural)]
pub enum HdfGeometrySource {
    /// No hardfile geometry.
    Absent,
    IdeFallback,
    Rdb,
}

impl HdfGeometrySource {
    /// The source's name as reported to the user.
    pub fn as_str(self) -> (r: &'static str)
        ensures
            self == HdfGeometrySource::Absent ==> r@ == "none"@,
            self == HdfGeometrySource::IdeFallback ==> r@ == "ide-fallback"@,
            self == HdfGeometrySource::Rdb ==> r@ == "rdb"@,
    {
        match self {
            HdfGeometrySource::Absent => "none",
            HdfGeometrySource::IdeFallback => "ide-fallback",
            HdfGeometrySource::Rdb => "rdb",
        }
    }
}

/// Parsed Amiga Rigid Disk Block geometry evidence.
#[derive(Debug, Clone, Copy, PartialEq, Eq, Structural)]
pub struct RdbGeometry {
    pub detected: bool,
    pub usable: bool,
    pub checksum_valid: bool,
    pub block_index: u32,
    pub checksum_longwords: u32,
    pub block_size_bytes: u32,
    pub cylinders: u32,
    pub heads: u32,
    pub sectors_per_track: u32,
    pub declared_bytes: u64,
    pub fits_in_image: bool,
}

/// No Rigid Disk Block evidence.
pub open spec fn spec_rdb_none() -> RdbGeometry {
    RdbGeometry {
        detected: false,
        usable: false,
        checksum_valid: false,
        block_index: 0,
        checksum_longwords: 0,
        block_size_bytes: 0,
        cylinders: 0,
        heads: 0,
        sectors_per_track: 0,
        declared_bytes: 0,
        fits_in_image: false,
    }
}

impl RdbGeometry {
    /// No Rigid Disk Block evidence.
    pub fn none() -> (r: Self)
        ensures
            r == spec_rdb_none(),
    {
        RdbGeometry {
            detected: false,
            usable: false,
            checksum_valid: false,
            block_index: 0,
            checksum_longwords: 0,
            block_size_bytes: 0,
            cylinders: 0,
            heads: 0,
            sectors_per_track: 0,
            declared_bytes: 0,
            fits_in_image: false,
        }
    }
}

/// Big-endian longword at `off`, when all four bytes lie inside `data`.
pub open spec fn spec_be_u32_at(data: Seq<u8>, off: int) -> Option<u32> {
    if 0 <= off && off + 4 <= data.len() {
        Some(
            (data[off] as int * 0x100_0000 + data[off + 1] as int * 0x1_0000 + data[off + 2] as int * 0x100
                + data[off + 3] as int) as u32,
        )
    } else {
        None
    }
}

fn be_u32_at(data: &[u8], offset: usize) -> (r: Option<u32>)
    ensures
        r == spec_be_u32_at(data@, offset as int),
{
    if offset < data.len() && data.len() - offset >= 4 {
        Some(
            (data[offset] as u32) * 0x100_0000 + (data[offset + 1] as u32) * 0x1_0000 + (data[offset + 2] as u32)
                * 0x100 + (data[offset + 3] as u32),
        )
    } else {
        None
    }
}

/// Wrapping 32-bit sum of the first `n` big-endian longwords from `start`.
pub open spec fn spec_be_sum(data: Seq<u8>, start: int, n: int) -> u32
    decreases n,
{
    if n <= 0 {
        0
    } else {
        ((spec_be_sum(data, start, n - 1) + spec_be_u32_at(data, start + 4 * (n - 1)).unwrap()) % 0x1_0000_0000) as u32
    }
}

/// Product of two 64-bit values, saturating at the largest value.
pub open spec fn spec_sat_mul(a: u64, b: u64) -> u64 {
    if a * b > u64::MAX { u64::MAX } else { (a * b) as u64 }
}

fn sat_mul(a: u64, b: u64) -> (r: u64)
    ensures
        r == spec_sat_mul(a, b),
{
    match a.checked_mul(b) {
        Some(x) => x,
        None => u64::MAX,
    }
}

/// Whether a geometry from a Rigid Disk Block can drive the CHS translation:
/// a valid checksum, 1..=16383 cylinders, 1..=255 heads, 1..=65535 sectors
/// per track and 512-byte blocks.
pub open spec fn spec_rdb_supported(g: RdbGeometry) -> bool {
    &&& g.checksum_valid
    &&& 0 < g.cylinders <= IDE_FALLBACK_MAX_CYLINDERS
    &&& 1 <= g.heads <= 255
    &&& 1 <= g.sectors_per_track <= 65535
    &&& g.block_size_bytes == ATA_SECTOR_SIZE
}

fn rdb_geometry_supported(geometry: &RdbGeometry) -> (r: bool)
    ensures
        r == spec_rdb_supported(*geometry),
{
    geometry.checksum_valid && geometry.cylinders > 0 && geometry.cylinders <= IDE_FALLBACK_MAX_CYLINDERS as u32
        && 1 <= geometry.heads && geometry.heads <= 255 && 1 <= geometry.sectors_per_track
        && geometry.sectors_per_track <= 65535 && geometry.block_size_bytes == ATA_SECTOR_SIZE as u32
}

/// The geometry read from a Rigid Disk Block found at block `b` (offset
/// `off`): its checksummed area must be non-empty, at most 64 KiB, inside the
/// image and sum to zero; then the block size (or the checksummed size when
/// zero), cylinders, sectors and heads are read and the declared size is
/// compared with the image.
pub open spec fn spec_rdb_at(data: Seq<u8>, b: int, off: int) -> RdbGeometry {
    let g0 = RdbGeometry { detected: true, block_index: b as u32, ..spec_rdb_none() };
    let longwords = spec_be_u32_at(data, off + RDB_CHECKSUM_LONGWORDS_OFFSET).unwrap();
    let g1 = RdbGeometry { checksum_longwords: longwords, ..g0 };
    let bytes = longwords as int * 4;
    if longwords == 0 || bytes > RDB_MAX_CHECKSUM_BYTES || off + bytes > data.len() {
        g1
    } else if spec_be_sum(data, off, longwords as int) != 0 {
        g1
    } else {
        let block = spec_be_u32_at(data, off + RDB_BLOCK_BYTES_OFFSET).unwrap();
        let cylinders = spec_be_u32_at(data, off + RDB_CYLINDERS_OFFSET).unwrap();
        let sectors = spec_be_u32_at(data, off + RDB_SECTORS_OFFSET).unwrap();
        let heads = spec_be_u32_at(data, off + RDB_HEADS_OFFSET).unwrap();
        let block_size = if block == 0 { bytes as u32 } else { block };
        let declared = spec_sat_mul(
            spec_sat_mul(spec_sat_mul(cylinders as u64, sectors as u64), heads as u64),
            block_size as u64,
        );
        let g2 = RdbGeometry {
            checksum_valid: true,
            block_size_bytes: block_size,
            cylinders,
            sectors_per_track: sectors,
            heads,
            declared_bytes: declared,
            fits_in_image: declared <= data.len(),
            ..g1
        };
        RdbGeometry { usable: spec_rdb_supported(g2), ..g2 }
    }
}

/// Whether the block at `off` starts with `RDSK` or `CDSK`.
pub open spec fn spec_rdb_tag(data: Seq<u8>, off: int) -> bool {
    (data[off] == 0x52 || data[off] == 0x43) && data[off + 1] == 0x44 && data[off + 2] == 0x53 && data[off + 3]
        == 0x4B
}

/// Search the first 16 blocks from block `b` on for a Rigid Disk Block.
pub open spec fn spec_rdb_scan(data: Seq<u8>, b: int) -> RdbGeometry
    decreases RDB_SCAN_BLOCKS - b,
{
    let blocks = if data.len() / 512 < 16 { data.len() / 512 } else { 16 };
    if b < 0 || b >= blocks {
        spec_rdb_none()
    } else {
        let off = b * 512;
        if off + RDB_HEADS_OFFSET + 4 > data.len() {
            spec_rdb_none()
        } else if !spec_rdb_tag(data, off) {
            spec_rdb_scan(data, b + 1)
        } else {
            spec_rdb_at(data, b, off)
        }
    }
}

fn rdb_checksum_sum(data: &[u8], start: usize, longwords: usize) -> (r: u32)
    requires
        start + 4 * longwords <= data@.len(),
    ensures
        r == spec_be_sum(data@, start as int, longwords as int),
{
    let n = data.len();
    let mut sum: u32 = 0;
    let mut i: usize = 0;
    while i < longwords
        invariant
            n == data@.len(),
            i <= longwords,
            start + 4 * longwords <= data@.len(),
            sum == spec_be_sum(data@, start as int, i as int),
        decreases longwords - i,
    {
        let w = be_u32_at(data, start + 4 * i);
        match w {
            Some(x) => {
                sum = sum.wrapping_add(x);
            },
            None => {},
        }
        i += 1;
    }
    sum
}

fn rdb_at(data: &[u8], block_index: usize, block_offset: usize) -> (r: RdbGeometry)
    requires
        block_index < 16,
        block_offset == block_index * 512,
        block_offset + RDB_HEADS_OFFSET + 4 <= data@.len(),
    ensures
        r == spec_rdb_at(data@, block_index as int, block_offset as int),
{
    let mut geometry = RdbGeometry::none();
    geometry.detected = true;
    geometry.block_index = block_index as u32;
    let checksum_longwords = match be_u32_at(data, block_offset + RDB_CHECKSUM_LONGWORDS_OFFSET) {
        Some(x) => x,
        None => {
            return geometry;
        },
    };
    geometry.checksum_longwords = checksum_longwords;
    if checksum_longwords == 0 {
        return geometry;
    }
    let checksum_bytes = (checksum_longwords as u64) * 4;
    if checksum_bytes > RDB_MAX_CHECKSUM_BYTES as u64 {
        return geometry;
    }
    let checksum_bytes = checksum_bytes as usize;
    if checksum_bytes > data.len() - block_offset {
        return geometry;
    }
    let sum = rdb_checksum_sum(data, block_offset, checksum_longwords as usize);
    if sum != 0 {
        return geometry;
    }
    geometry.checksum_valid = true;
    let rdb_block_bytes = match be_u32_at(data, block_offset + RDB_BLOCK_BYTES_OFFSET) {
        Some(x) => x,
        None => 0,
    };
    geometry.block_size_bytes = if rdb_block_bytes == 0 { checksum_bytes as u32 } else { rdb_block_bytes };
    geometry.cylinders = match be_u32_at(data, block_offset + RDB_CYLINDERS_OFFSET) {
        Some(x) => x,
        None => 0,
    };
    geometry.sectors_per_track = match be_u32_at(data, block_offset + RDB_SECTORS_OFFSET) {
        Some(x) => x,
        None => 0,
    };
    geometry.heads = match be_u32_at(data, block_offset + RDB_HEADS_OFFSET) {
        Some(x) => x,
        None => 0,
    };
    geometry.declared_bytes = sat_mul(
        sat_mul(sat_mul(geometry.cylinders as u64, geometry.sectors_per_track as u64), geometry.heads as u64),
        geometry.block_size_bytes as u64,
    );
    geometry.fits_in_image = geometry.declared_bytes <= data.len() as u64;
    geometry.usable = rdb_geometry_supported(&geometry);
    geometry
}

/// Look for an Amiga Rigid Disk Block (`RDSK` or `CDSK`) in the first 16
/// blocks of a hardfile and report the geometry it declares.
pub fn detect_rdb_geometry(data: &[u8]) -> (r: RdbGeometry)
    ensures
        r == spec_rdb_scan(data@, 0),
{
    let blocks = if data.len() / ATA_SECTOR_SIZE < RDB_SCAN_BLOCKS {
        data.len() / ATA_SECTOR_SIZE
    } else {
        RDB_SCAN_BLOCKS
    };
    let mut block_index: usize = 0;
    while block_index < blocks
        invariant
            block_index <= blocks <= 16,
            blocks == (if data@.len() / 512 < 16 { data@.len() / 512 } else { 16 }),
            spec_rdb_scan(data@, block_index as int) == spec_rdb_scan(data@, 0),
        decreases blocks - block_index,
    {
        let block_offset = block_index * ATA_SECTOR_SIZE;
        if block_offset + RDB_HEADS_OFFSET + 4 > data.len() {
            return RdbGeometry::none();
        }
        let tagged = (data[block_offset] == 0x52 || data[block_offset] == 0x43) && data[block_offset + 1] == 0x44
            && data[block_offset + 2] == 0x53 && data[block_offset + 3] == 0x4B;
        if !tagged {
            block_index += 1;
            continue;
        }
        return rdb_at(data, block_index, block_offset);
    }
    RdbGeometry::none()
}

/// CHS translation for a hardfile without a usable Rigid Disk Block: 16
/// heads, 63 sectors per track, and as many whole cylinders as fit, at most
/// 16383.
pub open spec fn spec_ide_fallback_geometry(total_sectors: u64) -> (u16, u8, u16) {
    let cylinders = if total_sectors == 0 {
        0
    } else if total_sectors / 1008 < 16383 {
        total_sectors / 1008
    } else {
        16383
    };
    (cylinders as u16, IDE_FALLBACK_HEADS, IDE_FALLBACK_SECTORS_PER_TRACK)
}

/// The IDE fallback CHS translation for a hardfile of `total_sectors` sectors.
pub fn ide_fallback_geometry(total_sectors: u64) -> (r: (u16, u8, u16))
    ensures
        r == spec_ide_fallback_geometry(total_sectors),
{
    let sectors_per_cylinder = IDE_FALLBACK_SECTORS_PER_CYLINDER;
    let cylinders = if total_sectors == 0 {
        0
    } else if total_sectors / sectors_per_cylinder < IDE_FALLBACK_MAX_CYLINDERS as u64 {
        total_sectors / sectors_per_cylinder
    } else {
        IDE_FALLBACK_MAX_CYLINDERS as u64
    };
    (cylinders as u16, IDE_FALLBACK_HEADS, IDE_FALLBACK_SECTORS_PER_TRACK)
}


/// Simplified ATA-2 controller state machine.
#[derive(Debug, Clone)]
pub struct AtaController {
    pub status: u8,
    pub error: u8,
    pub nsector: u8,
    pub sector: u8,
    pub lcyl: u8,
    pub hcyl: u8,
    pub select: u8,
    pub devcon: u8,
    pub command: u8,
    pub command_log: Vec<u8>,
    /// Sector data buffer for active transfers.
    pub data_buffer: Vec<u8>,
    pub data_index: usize,
    pub data_direction: DataDirection,
    /// Backing hardfile image contents.
    pub disk_data: Option<Vec<u8>>,
    pub hdf_dirty: bool,
    /// Triggers Level 2 interrupt to the custom chipset/CPU.
    pub pending_irq: bool,
    /// CHS parameters.
    pub cylinders: u16,
    pub heads: u8,
    pub sectors_per_track: u16,
    pub geometry_source: HdfGeometrySource,
    pub rdb_geometry: RdbGeometry,
}

/// Abstract state of the controller, with its buffers as sequences.
pub struct AtaView {
    pub status: u8,
    pub error: u8,
    pub nsector: u8,
    pub sector: u8,
    pub lcyl: u8,
    pub hcyl: u8,
    pub select: u8,
    pub devcon: u8,
    pub command: u8,
    pub command_log: Seq<u8>,
    pub data_buffer: Seq<u8>,
    pub data_index: usize,
    pub data_direction: DataDirection,
    pub disk_data: Option<Seq<u8>>,
    pub hdf_dirty: bool,
    pub pending_irq: bool,
    pub cylinders: u16,
    pub heads: u8,
    pub sectors_per_track: u16,
    pub geometry_source: HdfGeometrySource,
    pub rdb_geometry: RdbGeometry,
}

impl View for AtaController {
    type V = AtaView;

    open spec fn view(&self) -> AtaView {
        AtaView {
            status: self.status,
            error: self.error,
            nsector: self.nsector,
            sector: self.sector,
            lcyl: self.lcyl,
            hcyl: self.hcyl,
            select: self.select,
            devcon: self.devcon,
            command: self.command,
            command_log: self.command_log@,
            data_buffer: self.data_buffer@,
            data_index: self.data_index,
            data_direction: self.data_direction,
            disk_data: spec_opt_bytes(self.disk_data),
            hdf_dirty: self.hdf_dirty,
            pending_irq: self.pending_irq,
            cylinders: self.cylinders,
            heads: self.heads,
            sectors_per_track: self.sectors_per_track,
            geometry_source: self.geometry_source,
            rdb_geometry: self.rdb_geometry,
        }
    }
}

/// Total addressable 512-byte sectors of the mounted hardfile, capped at
/// `u32::MAX`, or 0 with none mounted.
pub open spec fn spec_total_sectors(v: AtaView) -> u32 {
    match v.disk_data {
        Some(d) => if d.len() / 512 < u32::MAX { (d.len() / 512) as u32 } else { u32::MAX },
        None => 0,
    }
}

/// The CHS address of the taskfile as a linear sector number:
/// `(cylinder * heads + head) * sectors_per_track + sector - 1`.
pub open spec fn spec_chs_lba(v: AtaView) -> int {
    let c = v.lcyl as int + v.hcyl as int * 256;
    let h = (v.select & 0x0F) as int;
    let s = if v.sector > 0 { v.sector as int - 1 } else { 0 };
    (c * v.heads as int + h) * v.sectors_per_track as int + s
}

/// Whether the taskfile's address can be computed in 32 bits: always in LBA
/// mode, and in CHS mode when the linear sector fits.
pub open spec fn spec_lba_fits(v: AtaView) -> bool {
    v.select & 0x40 != 0 || spec_chs_lba(v) <= u32::MAX
}

/// The active LBA address: the 28-bit LBA from sector, cylinder and head
/// registers in LBA mode (select bit 6), else the CHS translation.
pub open spec fn spec_current_lba(v: AtaView) -> u32 {
    if v.select & 0x40 != 0 {
        (v.sector as u32) | ((v.lcyl as u32) << 8u32) | ((v.hcyl as u32) << 16u32) | (((v.select & 0x0F) as u32)
            << 24u32)
    } else {
        spec_chs_lba(v) as u32
    }
}

/// `text` padded with spaces: byte `i`.
pub open spec fn spec_padded(text: Seq<u8>, i: int) -> u8 {
    if i < text.len() { text[i] } else { 0x20 }
}

/// Serial number reported by IDENTIFY DEVICE: "RUMIGA-000001".
pub open spec fn spec_identify_serial() -> Seq<u8> {
    seq![0x52u8, 0x55, 0x4D, 0x49, 0x47, 0x41, 0x2D, 0x30, 0x30, 0x30, 0x30, 0x30, 0x31]
}

/// Firmware revision reported by IDENTIFY DEVICE: "1.0".
pub open spec fn spec_identify_firmware() -> Seq<u8> {
    seq![0x31u8, 0x2E, 0x30]
}

/// Model number reported by IDENTIFY DEVICE: "RUMIGA VIRTUAL ATA HARDDISK".
pub open spec fn spec_identify_model() -> Seq<u8> {
    seq![
        0x52u8, 0x55, 0x4D, 0x49, 0x47, 0x41, 0x20, 0x56, 0x49, 0x52, 0x54, 0x55, 0x41, 0x4C, 0x20, 0x41, 0x54,
        0x41, 0x20, 0x48, 0x41, 0x52, 0x44, 0x44, 0x49, 0x53, 0x4B
    ]
}

/// CHS capacity in sectors.
pub open spec fn spec_chs_sectors(v: AtaView) -> int {
    v.cylinders as int * v.heads as int * v.sectors_per_track as int
}

/// Word `i` of the IDENTIFY DEVICE data (text fields excepted): the default
/// and current CHS geometry and capacity, the LBA capacity (capped at 28
/// bits), and fixed capability words for an ATA-6 PIO drive with LBA.
pub open spec fn spec_identify_word(v: AtaView, i: int) -> u16 {
    let cyl = v.cylinders;
    let heads = v.heads as u16;
    let spt = v.sectors_per_track;
    let chs = spec_chs_sectors(v);
    let total = spec_total_sectors(v) as int;
    let cap = if total < 0x0FFF_FFFF { total } else { 0x0FFF_FFFF };
    if i == 0 {
        0x0040
    } else if i == 1 || i == 54 {
        cyl
    } else if i == 2 {
        0xC837
    } else if i == 3 || i == 55 {
        heads
    } else if i == 4 {
        if 512 * spt <= 0xFFFF { (512 * spt) as u16 } else { 0xFFFF }
    } else if i == 5 || i == 21 {
        512
    } else if i == 6 || i == 56 {
        spt
    } else if i == 20 {
        3
    } else if i == 22 {
        4
    } else if i == 48 {
        1
    } else if i == 49 {
        0x0300
    } else if i == 51 || i == 52 {
        0x0200
    } else if i == 53 {
        7
    } else if i == 57 {
        (chs % 0x1_0000) as u16
    } else if i == 58 {
        (chs / 0x1_0000) as u16
    } else if i == 60 {
        (cap % 0x1_0000) as u16
    } else if i == 61 {
        (cap / 0x1_0000) as u16
    } else if i == 62 || i == 63 {
        0x000F
    } else if i == 64 {
        0x0003
    } else if 65 <= i <= 68 {
        120
    } else if i == 80 {
        0x007E
    } else if i == 81 {
        0x001C
    } else if i == 82 || i == 84 || i == 85 || i == 87 {
        0x4000
    } else if i == 83 || i == 86 {
        0x7000
    } else if i == 88 {
        0x003F
    } else if i == 93 {
        0x6001
    } else {
        0
    }
}

/// Byte `b` of the IDENTIFY DEVICE buffer: the words big-endian, with the
/// serial number (words 10-19), firmware revision (23-26) and model (27-46)
/// as space-padded text.
pub open spec fn spec_identify_byte(v: AtaView, b: int) -> u8 {
    if 20 <= b < 40 {
        spec_padded(spec_identify_serial(), b - 20)
    } else if 46 <= b < 54 {
        spec_padded(spec_identify_firmware(), b - 46)
    } else if 54 <= b < 94 {
        spec_padded(spec_identify_model(), b - 54)
    } else if b % 2 == 0 {
        (spec_identify_word(v, b / 2) >> 8u16) as u8
    } else {
        (spec_identify_word(v, b / 2) & 0xFF) as u8
    }
}

/// The 512-byte IDENTIFY DEVICE buffer.
pub open spec fn spec_identify_buffer(v: AtaView) -> Seq<u8> {
    Seq::new(512, |b: int| spec_identify_byte(v, b))
}

/// Sector count of a transfer command: 0 means 256.
pub open spec fn spec_sector_count(v: AtaView) -> int {
    if v.nsector == 0 { 256 } else { v.nsector as int }
}

/// The buffer of a READ SECTORS command: `count` sectors of the hardfile from
/// `lba`, zero past its end or with no hardfile.
pub open spec fn spec_read_buffer(disk: Option<Seq<u8>>, lba: u32, count: int) -> Seq<u8> {
    Seq::new(
        (count * 512) as nat,
        |i: int|
            match disk {
                Some(d) => if lba as int * 512 + i < d.len() { d[lba as int * 512 + i] } else { 0u8 },
                None => 0u8,
            },
    )
}

/// The command log after `cmd`: the last 32 commands.
pub open spec fn spec_log_command(log: Seq<u8>, cmd: u8) -> Seq<u8> {
    if log.len() == 32 { log.subrange(1, 32).push(cmd) } else { log.push(cmd) }
}

/// Status after a command completes: busy cleared and `bits` set.
pub open spec fn spec_done(status: u8, bits: u8) -> u8 {
    (status & 0x7F) | bits
}

/// Controller state after an ATA command: it is logged, and IDENTIFY DEVICE
/// and READ SECTORS/MULTIPLE fill the buffer for a read transfer, WRITE
/// SECTORS/MULTIPLE opens a write transfer, INITIALIZE DRIVE PARAMETERS sets
/// the CHS geometry, EXECUTE DIAGNOSTICS and RECALIBRATE/SEEK reset the
/// signature registers, a few commands complete without effect, and any other
/// command is aborted.
pub open spec fn spec_write_command(v: AtaView, cmd: u8) -> AtaView {
    let base = AtaView {
        command: cmd,
        command_log: spec_log_command(v.command_log, cmd),
        status: ((v.status | IDE_STATUS_BSY) & 0xFE) as u8,
        error: 0x01,
        ..v
    };
    if cmd == 0xEC {
        AtaView {
            data_buffer: spec_identify_buffer(v),
            status: spec_done(base.status, IDE_STATUS_DRQ | IDE_STATUS_DRDY),
            data_index: 0,
            data_direction: DataDirection::Read,
            pending_irq: true,
            ..base
        }
    } else if cmd == 0x20 || cmd == 0x21 || cmd == 0xC4 {
        AtaView {
            data_buffer: spec_read_buffer(v.disk_data, spec_current_lba(v), spec_sector_count(v)),
            status: spec_done(base.status, IDE_STATUS_DRQ | IDE_STATUS_DRDY),
            data_index: 0,
            data_direction: DataDirection::Read,
            pending_irq: true,
            ..base
        }
    } else if cmd == 0x30 || cmd == 0x31 || cmd == 0xC5 {
        AtaView {
            data_buffer: Seq::new((spec_sector_count(v) * 512) as nat, |i: int| 0u8),
            status: spec_done(base.status, IDE_STATUS_DRQ | IDE_STATUS_DRDY),
            data_index: 0,
            data_direction: DataDirection::Write,
            ..base
        }
    } else if cmd == 0x91 {
        AtaView {
            heads: ((v.select & 0x0F) + 1) as u8,
            sectors_per_track: v.nsector as u16,
            status: spec_done(base.status, IDE_STATUS_DRDY),
            data_direction: DataDirection::Idle,
            pending_irq: true,
            ..base
        }
    } else if cmd == 0x90 {
        AtaView {
            nsector: 1,
            sector: 1,
            lcyl: 0,
            hcyl: 0,
            status: spec_done(base.status, IDE_STATUS_DRDY),
            data_direction: DataDirection::Idle,
            pending_irq: true,
            ..base
        }
    } else if 0x10 <= cmd <= 0x1F {
        AtaView {
            sector: 1,
            lcyl: 0,
            hcyl: 0,
            status: spec_done(base.status, IDE_STATUS_DRDY),
            data_direction: DataDirection::Idle,
            pending_irq: true,
            ..base
        }
    } else if cmd == 0xEF || cmd == 0x40 || cmd == 0x41 || cmd == 0xC6 {
        AtaView {
            status: spec_done(base.status, IDE_STATUS_DRDY),
            data_direction: DataDirection::Idle,
            pending_irq: true,
            ..base
        }
    } else {
        AtaView {
            status: spec_done(base.status, IDE_STATUS_DRDY | IDE_STATUS_ERR),
            error: 0x04,
            data_direction: DataDirection::Idle,
            pending_irq: true,
            ..base
        }
    }
}

/// What a command needs to run: a 32-bit address for the read commands, and
/// a 32-bit CHS capacity for IDENTIFY DEVICE.
pub open spec fn spec_command_ok(v: AtaView, cmd: u8) -> bool {
    &&& (cmd == 0x20 || cmd == 0x21 || cmd == 0xC4) ==> spec_lba_fits(v)
    &&& cmd == 0xEC ==> spec_chs_sectors(v) <= u32::MAX
}

/// The hardfile after a completed write transfer: the buffer stored from
/// byte `start`, the image growing with zeros when it ends beyond it.
pub open spec fn spec_store_sectors(d: Seq<u8>, start: int, buf: Seq<u8>) -> Seq<u8> {
    let len = if start + buf.len() > d.len() { start + buf.len() } else { d.len() as int };
    Seq::new(
        len as nat,
        |i: int|
            if start <= i < start + buf.len() {
                buf[i - start]
            } else if i < d.len() {
                d[i]
            } else {
                0u8
            },
    )
}

/// Controller state when a write transfer completes: the buffer is committed
/// to the hardfile at the current LBA, which becomes dirty, and the drive
/// raises its interrupt.
pub open spec fn spec_commit(v: AtaView) -> AtaView {
    let status = (((v.status | IDE_STATUS_BSY) & 0xF7) & 0x7F) as u8;
    let start = spec_current_lba(v) as int * 512;
    AtaView {
        status,
        disk_data: match v.disk_data {
            Some(d) => Some(spec_store_sectors(d, start, v.data_buffer)),
            None => None,
        },
        hdf_dirty: if v.disk_data is Some { true } else { v.hdf_dirty },
        data_direction: DataDirection::Idle,
        pending_irq: true,
        ..v
    }
}

/// What completing a write transfer needs: whole sectors in the buffer, a
/// 32-bit address, and an end offset that fits in memory.
pub open spec fn spec_commit_ok(v: AtaView) -> bool {
    v.data_direction == DataDirection::Write && v.data_buffer.len() > 0 ==> {
        &&& v.data_buffer.len() % 512 == 0
        &&& spec_lba_fits(v)
        &&& spec_current_lba(v) as int * 512 + v.data_buffer.len() <= usize::MAX
    }
}

/// Controller state after the data index advances to `ni`: the end of the
/// buffer ends the transfer (write transfers commit), and a sector boundary
/// before it raises the interrupt for the next sector.
pub open spec fn spec_advance(v: AtaView, ni: usize) -> AtaView {
    let v1 = AtaView { data_index: ni, ..v };
    if ni >= v.data_buffer.len() {
        if v.data_direction == DataDirection::Write {
            spec_commit(v1)
        } else {
            AtaView { status: (v.status & 0xF7) as u8, data_direction: DataDirection::Idle, ..v1 }
        }
    } else if ni % 512 == 0 {
        AtaView { pending_irq: true, ..v1 }
    } else {
        v1
    }
}

/// A word read from the data port and the controller state after it: the
/// next two buffer bytes big-endian (`$FFFF` past the end), byte-swapped for
/// IDENTIFY data; `$FFFF` with no read transfer.
pub open spec fn spec_read_data_word(v: AtaView) -> (u16, AtaView) {
    if v.data_direction != DataDirection::Read || v.data_buffer.len() == 0 {
        (0xFFFF, v)
    } else {
        let idx = v.data_index as int;
        let raw: u16 = if idx + 1 < v.data_buffer.len() {
            (v.data_buffer[idx] as int * 256 + v.data_buffer[idx + 1] as int) as u16
        } else {
            0xFFFF
        };
        let val: u16 = if v.command == 0xEC { ((raw % 256) * 256 + raw / 256) as u16 } else { raw };
        (val, spec_advance(v, (idx + 2) as usize))
    }
}

/// Controller state after a word is written to the data port of a write
/// transfer: stored big-endian in the buffer when both bytes fit.
pub open spec fn spec_write_data_word(v: AtaView, val: u16) -> AtaView {
    if v.data_direction != DataDirection::Write || v.data_buffer.len() == 0 {
        v
    } else {
        let idx = v.data_index as int;
        let buf = if idx + 1 < v.data_buffer.len() {
            v.data_buffer.update(idx, (val / 256) as u8).update(idx + 1, (val % 256) as u8)
        } else {
            v.data_buffer
        };
        spec_advance(AtaView { data_buffer: buf, ..v }, (idx + 2) as usize)
    }
}

/// A byte read from the data port and the controller state after it.
pub open spec fn spec_read_data_byte(v: AtaView) -> (u8, AtaView) {
    if v.data_direction != DataDirection::Read || v.data_buffer.len() == 0 {
        (0xFF, v)
    } else {
        (v.data_buffer[v.data_index as int], spec_advance(v, (v.data_index + 1) as usize))
    }
}

/// Controller state after a byte is written to the data port.
pub open spec fn spec_write_data_byte(v: AtaView, val: u8) -> AtaView {
    if v.data_direction != DataDirection::Write || v.data_buffer.len() == 0 {
        v
    } else {
        spec_advance(
            AtaView { data_buffer: v.data_buffer.update(v.data_index as int, val), ..v },
            (v.data_index + 1) as usize,
        )
    }
}

/// What the byte-wide data port needs: an index inside the active buffer.
pub open spec fn spec_byte_port_ok(v: AtaView) -> bool {
    v.data_direction != DataDirection::Idle && v.data_buffer.len() > 0 ==> v.data_index < v.data_buffer.len()
}

/// A taskfile register read and the controller state after it. With no
/// hardfile the bus floats (`$7F` status, `$FF` otherwise); an absent slave
/// reads as an error status and zero registers; the data register reads a
/// buffer byte.
pub open spec fn spec_read_register(v: AtaView, reg: usize, is_control: bool) -> (u8, AtaView) {
    if v.disk_data is None {
        (if reg == 7 && !is_control { 0x7F } else { 0xFF }, v)
    } else if v.select & 0x10 != 0 {
        (if reg == 7 { IDE_STATUS_ERR } else { 0 }, v)
    } else if is_control {
        (if reg == 7 { v.status } else { 0xFF }, v)
    } else if reg == 0 {
        spec_read_data_byte(v)
    } else {
        (
            if reg == 1 {
                v.error
            } else if reg == 2 {
                v.nsector
            } else if reg == 3 {
                v.sector
            } else if reg == 4 {
                v.lcyl
            } else if reg == 5 {
                v.hcyl
            } else if reg == 6 {
                v.select
            } else if reg == 7 {
                v.status
            } else {
                0xFF
            },
            v,
        )
    }
}

/// Controller state after a taskfile register write. The device control
/// register's reset bit resets the signature registers when set and makes
/// the drive ready when cleared; writes to an absent slave are ignored
/// except for the drive/head register; the command register runs a command.
pub open spec fn spec_write_register(v: AtaView, reg: usize, is_control: bool, value: u8) -> AtaView {
    if is_control {
        if reg == 7 {
            let v1 = AtaView { devcon: value, ..v };
            if v.devcon & 0x04 == 0 && value & 0x04 != 0 {
                AtaView {
                    status: IDE_STATUS_BSY,
                    error: 1,
                    nsector: 1,
                    sector: 1,
                    lcyl: 0,
                    hcyl: 0,
                    data_direction: DataDirection::Idle,
                    ..v1
                }
            } else if v.devcon & 0x04 != 0 && value & 0x04 == 0 {
                AtaView { status: (IDE_STATUS_DRDY | IDE_STATUS_DSC) as u8, ..v1 }
            } else {
                v1
            }
        } else {
            v
        }
    } else if v.select & 0x10 != 0 && reg != 6 {
        v
    } else if reg == 0 {
        spec_write_data_byte(v, value)
    } else if reg == 2 {
        AtaView { nsector: value, ..v }
    } else if reg == 3 {
        AtaView { sector: value, ..v }
    } else if reg == 4 {
        AtaView { lcyl: value, ..v }
    } else if reg == 5 {
        AtaView { hcyl: value, ..v }
    } else if reg == 6 {
        AtaView { select: value, ..v }
    } else if reg == 7 {
        spec_write_command(v, value)
    } else {
        v
    }
}

/// Controller state after a hardfile is mounted: a usable Rigid Disk Block
/// sets the geometry, otherwise the IDE fallback translation does (no
/// geometry for an image under one sector).
pub open spec fn spec_insert_disk(v: AtaView, data: Seq<u8>) -> AtaView {
    let rdb = spec_rdb_scan(data, 0);
    let v1 = AtaView { rdb_geometry: rdb, disk_data: Some(data), hdf_dirty: false, ..v };
    if rdb.usable {
        AtaView {
            cylinders: rdb.cylinders as u16,
            heads: rdb.heads as u8,
            sectors_per_track: rdb.sectors_per_track as u16,
            geometry_source: HdfGeometrySource::Rdb,
            ..v1
        }
    } else {
        let total = (data.len() / 512) as u32;
        let g = spec_ide_fallback_geometry(total as u64);
        AtaView {
            heads: g.1,
            sectors_per_track: g.2,
            cylinders: if total > 0 { g.0 } else { 0 },
            geometry_source: if total > 0 { HdfGeometrySource::IdeFallback } else { HdfGeometrySource::Absent },
            ..v1
        }
    }
}


impl Default for AtaController {
    fn default() -> (r: Self)
        ensures
            r@ == spec_ata_new(),
    {
        Self::new()
    }
}

/// A controller without a hardfile, showing the ATA reset signature.
pub open spec fn spec_ata_new() -> AtaView {
    AtaView {
        status: (IDE_STATUS_DRDY | IDE_STATUS_DSC) as u8,
        error: 0x01,
        nsector: 0x01,
        sector: 0x01,
        lcyl: 0,
        hcyl: 0,
        select: 0,
        devcon: 0,
        command: 0,
        command_log: Seq::empty(),
        data_buffer: Seq::empty(),
        data_index: 0,
        data_direction: DataDirection::Idle,
        disk_data: None,
        hdf_dirty: false,
        pending_irq: false,
        cylinders: 0,
        heads: 16,
        sectors_per_track: 63,
        geometry_source: HdfGeometrySource::Absent,
        rdb_geometry: spec_rdb_none(),
    }
}

/// "RUMIGA-000001" as bytes.
fn identify_serial() -> (r: Vec<u8>)
    ensures
        r@ == spec_identify_serial(),
{
    let r = vec![0x52u8, 0x55, 0x4D, 0x49, 0x47, 0x41, 0x2D, 0x30, 0x30, 0x30, 0x30, 0x30, 0x31];
    assert(r@ =~= spec_identify_serial());
    r
}

/// "1.0" as bytes.
fn identify_firmware() -> (r: Vec<u8>)
    ensures
        r@ == spec_identify_firmware(),
{
    let r = vec![0x31u8, 0x2E, 0x30];
    assert(r@ =~= spec_identify_firmware());
    r
}

/// "RUMIGA VIRTUAL ATA HARDDISK" as bytes.
fn identify_model() -> (r: Vec<u8>)
    ensures
        r@ == spec_identify_model(),
{
    let r = vec![
        0x52u8, 0x55, 0x4D, 0x49, 0x47, 0x41, 0x20, 0x56, 0x49, 0x52, 0x54, 0x55, 0x41, 0x4C, 0x20, 0x41, 0x54, 0x41,
        0x20, 0x48, 0x41, 0x52, 0x44, 0x44, 0x49, 0x53, 0x4B,
    ];
    assert(r@ =~= spec_identify_model());
    r
}

impl AtaController {
    /// Create a new ATA controller in the default signature state, with no
    /// hardfile.
    pub fn new() -> (r: Self)
        ensures
            r@ == spec_ata_new(),
    {
        Self {
            status: IDE_STATUS_DRDY | IDE_STATUS_DSC,
            error: 0x01,
            nsector: 0x01,
            sector: 0x01,
            lcyl: 0x00,
            hcyl: 0x00,
            select: 0x00,
            devcon: 0x00,
            command: 0x00,
            command_log: Vec::new(),
            data_buffer: Vec::new(),
            data_index: 0,
            data_direction: DataDirection::Idle,
            disk_data: None,
            hdf_dirty: false,
            pending_irq: false,
            cylinders: 0,
            heads: 16,
            sectors_per_track: 63,
            geometry_source: HdfGeometrySource::Absent,
            rdb_geometry: RdbGeometry::none(),
        }
    }

    /// Mount a hardfile image held in memory.
    pub fn insert_disk(&mut self, data: Vec<u8>)
        ensures
            final(self)@ == spec_insert_disk(old(self)@, data@),
    {
        let size = data.len();
        let rdb_geometry = detect_rdb_geometry(data.as_slice());
        let ghost bytes = data@;
        self.rdb_geometry = rdb_geometry;
        self.disk_data = Some(data);
        self.hdf_dirty = false;
        if rdb_geometry.usable {
            self.cylinders = rdb_geometry.cylinders as u16;
            self.heads = rdb_geometry.heads as u8;
            self.sectors_per_track = rdb_geometry.sectors_per_track as u16;
            self.geometry_source = HdfGeometrySource::Rdb;
            return;
        }
        let total_sectors = (size / 512) as u32;
        let (cylinders, heads, sectors_per_track) = ide_fallback_geometry(total_sectors as u64);
        self.heads = heads;
        self.sectors_per_track = sectors_per_track;
        if total_sectors > 0 {
            self.cylinders = cylinders;
            self.geometry_source = HdfGeometrySource::IdeFallback;
        } else {
            self.cylinders = 0;
            self.geometry_source = HdfGeometrySource::Absent;
        }
    }

    /// Total addressable 512-byte sectors in the mounted disk.
    pub fn total_sectors(&self) -> (r: u32)
        ensures
            r == spec_total_sectors(self@),
    {
        match &self.disk_data {
            Some(data) => {
                if data.len() / 512 < u32::MAX as usize {
                    (data.len() / 512) as u32
                } else {
                    u32::MAX
                }
            },
            None => 0,
        }
    }

    /// Calculate the active LBA address from the taskfile registers.
    pub fn current_lba(&self) -> (r: u32)
        requires
            spec_lba_fits(self@),
        ensures
            r == spec_current_lba(self@),
    {
        if (self.select & 0x40) != 0 {
            let lba0 = self.sector as u32;
            let lba1 = self.lcyl as u32;
            let lba2 = self.hcyl as u32;
            let lba3 = (self.select & 0x0F) as u32;
            lba0 | (lba1 << 8) | (lba2 << 16) | (lba3 << 24)
        } else {
            let c = (self.lcyl as u32) + (self.hcyl as u32) * 256;
            let h = (self.select & 0x0F) as u32;
            let s: u32 = if self.sector > 0 { (self.sector - 1) as u32 } else { 0 };
            proof {
                let hd = self.heads as int;
                assert(c * hd <= 65535 * 255) by (nonlinear_arith)
                    requires
                        0 <= c <= 65535,
                        0 <= hd <= 255,
                ;
            }
            let ch = c * (self.heads as u32) + h;
            ch * (self.sectors_per_track as u32) + s
        }
    }

    /// Read the ATA drive address register: the selected drive and head,
    /// active low.
    pub fn read_drive_address(&self) -> (r: u8)
        ensures
            r == (((if (self.select & 0x10) != 0 { 2u8 } else { 1u8 }) | ((self.select & 0x0F) << 2u8)) ^ 0xFF),
    {
        ((if (self.select & 0x10) != 0 { 2u8 } else { 1u8 }) | ((self.select & 0x0F) << 2)) ^ 0xFF
    }

    /// An independent copy of the controller's state.
    pub fn duplicate(&self) -> (r: Self)
        ensures
            r@ == self@,
    {
        let disk_data = match &self.disk_data {
            Some(d) => Some(copy_bytes(d)),
            None => None,
        };
        AtaController {
            status: self.status,
            error: self.error,
            nsector: self.nsector,
            sector: self.sector,
            lcyl: self.lcyl,
            hcyl: self.hcyl,
            select: self.select,
            devcon: self.devcon,
            command: self.command,
            command_log: copy_bytes(&self.command_log),
            data_buffer: copy_bytes(&self.data_buffer),
            data_index: self.data_index,
            data_direction: self.data_direction,
            disk_data,
            hdf_dirty: self.hdf_dirty,
            pending_irq: self.pending_irq,
            cylinders: self.cylinders,
            heads: self.heads,
            sectors_per_track: self.sectors_per_track,
            geometry_source: self.geometry_source,
            rdb_geometry: self.rdb_geometry,
        }
    }

    /// Whether the taskfile's address can be computed in 32 bits.
    pub fn lba_fits(&self) -> (r: bool)
        ensures
            r == spec_lba_fits(self@),
    {
        if (self.select & 0x40) != 0 {
            return true;
        }
        let c = (self.lcyl as u64) + (self.hcyl as u64) * 256;
        let h = (self.select & 0x0F) as u64;
        let s: u64 = if self.sector > 0 { (self.sector - 1) as u64 } else { 0 };
        let hd = self.heads as u64;
        let spt = self.sectors_per_track as u64;
        proof {
            assert(c * hd <= 65535 * 255) by (nonlinear_arith)
                requires
                    c <= 65535,
                    hd <= 255,
            ;
            assert((c * hd + h) * spt <= (65535 * 255 + 255) * 65535) by (nonlinear_arith)
                requires
                    c * hd + h <= 65535 * 255 + 255,
                    spt <= 65535,
            ;
        }
        (c * hd + h) * spt + s <= u32::MAX as u64
    }

    /// Whether the data port can be accessed byte-wise: during a transfer the
    /// data index lies inside the buffer.
    pub fn byte_port_ready(&self) -> (r: bool)
        ensures
            r == spec_byte_port_ok(self@),
    {
        self.data_direction == DataDirection::Idle || self.data_buffer.len() == 0 || self.data_index
            < self.data_buffer.len()
    }

    /// Whether a pending write transfer can be stored once its buffer is full:
    /// whole sectors, at an address that fits in 32 bits and in memory.
    pub fn commit_ready(&self) -> (r: bool)
        ensures
            r == spec_commit_ok(self@),
    {
        if self.data_direction != DataDirection::Write || self.data_buffer.len() == 0 {
            return true;
        }
        if self.data_buffer.len() % 512 != 0 || !self.lba_fits() {
            return false;
        }
        let lba = self.current_lba() as usize;
        match lba.checked_mul(512) {
            Some(start) => start.checked_add(self.data_buffer.len()).is_some(),
            None => false,
        }
    }

    /// Whether command `cmd` can run on the current taskfile: sector
    /// transfers need an address that fits in 32 bits, IDENTIFY DEVICE a CHS
    /// capacity that does.
    pub fn accepts_command(&self, cmd: u8) -> (r: bool)
        ensures
            r == spec_command_ok(self@, cmd),
    {
        if cmd == 0x20 || cmd == 0x21 || cmd == 0xC4 {
            if !self.lba_fits() {
                return false;
            }
        }
        if cmd == 0xEC {
            let cy = self.cylinders as u64;
            let hd = self.heads as u64;
            let spt = self.sectors_per_track as u64;
            proof {
                assert(cy * hd <= 65535 * 255) by (nonlinear_arith)
                    requires
                        cy <= 65535,
                        hd <= 255,
                ;
                assert(cy * hd * spt <= 65535 * 255 * 65535) by (nonlinear_arith)
                    requires
                        cy * hd <= 65535 * 255,
                        spt <= 65535,
                ;
            }
            return cy * hd * spt <= u32::MAX as u64;
        }
        true
    }
}


impl AtaController {
    /// Word `i` of the IDENTIFY DEVICE data, text fields excepted.
    fn identify_word(&self, i: usize) -> (r: u16)
        requires
            spec_chs_sectors(self@) <= u32::MAX,
        ensures
            r == spec_identify_word(self@, i as int),
    {
        let cyl = self.cylinders;
        let heads = self.heads as u16;
        let spt = self.sectors_per_track;
        proof {
            let c = cyl as int;
            let h = self.heads as int;
            let t = spt as int;
            assert(0 <= c * h <= 65535 * 255) by (nonlinear_arith)
                requires
                    0 <= c <= 65535,
                    0 <= h <= 255,
            ;
        }
        let chs = (cyl as u32) * (self.heads as u32) * (spt as u32);
        let total = self.total_sectors();
        let cap = if total < 0x0FFF_FFFF { total } else { 0x0FFF_FFFF };
        if i == 0 {
            0x0040
        } else if i == 1 || i == 54 {
            cyl
        } else if i == 2 {
            0xC837
        } else if i == 3 || i == 55 {
            heads
        } else if i == 4 {
            if (spt as u32) * 512 <= 0xFFFF {
                ((spt as u32) * 512) as u16
            } else {
                0xFFFF
            }
        } else if i == 5 || i == 21 {
            512
        } else if i == 6 || i == 56 {
            spt
        } else if i == 20 {
            3
        } else if i == 22 {
            4
        } else if i == 48 {
            1
        } else if i == 49 {
            0x0300
        } else if i == 51 || i == 52 {
            0x0200
        } else if i == 53 {
            7
        } else if i == 57 {
            (chs % 0x1_0000) as u16
        } else if i == 58 {
            (chs / 0x1_0000) as u16
        } else if i == 60 {
            (cap % 0x1_0000) as u16
        } else if i == 61 {
            (cap / 0x1_0000) as u16
        } else if i == 62 || i == 63 {
            0x000F
        } else if i == 64 {
            0x0003
        } else if 65 <= i && i <= 68 {
            120
        } else if i == 80 {
            0x007E
        } else if i == 81 {
            0x001C
        } else if i == 82 || i == 84 || i == 85 || i == 87 {
            0x4000
        } else if i == 83 || i == 86 {
            0x7000
        } else if i == 88 {
            0x003F
        } else if i == 93 {
            0x6001
        } else {
            0
        }
    }

    /// Build the IDENTIFY DEVICE buffer.
    fn populate_identify_buffer(&mut self)
        requires
            spec_chs_sectors(old(self)@) <= u32::MAX,
        ensures
            final(self)@ == (AtaView { data_buffer: spec_identify_buffer(old(self)@), ..old(self)@ }),
    {
        let ghost v0 = self@;
        let mut buf: Vec<u8> = vec![0u8; 512];
        let mut i: usize = 0;
        while i < 256
            invariant
                i <= 256,
                buf@.len() == 512,
                self@ == v0,
                spec_chs_sectors(v0) <= u32::MAX,
                forall|b: int|
                    0 <= b < 2 * i ==> buf@[b] == (if b % 2 == 0 {
                        (spec_identify_word(v0, b / 2) >> 8u16) as u8
                    } else {
                        (spec_identify_word(v0, b / 2) & 0xFF) as u8
                    }),
            decreases 256 - i,
        {
            let w = self.identify_word(i);
            buf.set(2 * i, (w >> 8) as u8);
            buf.set(2 * i + 1, (w & 0xFF) as u8);
            proof {
                assert((2 * i) as int / 2 == i && (2 * i + 1) as int / 2 == i);
            }
            i += 1;
        }
        let serial = identify_serial();
        write_text(&mut buf, 10, &serial, 20);
        let firmware = identify_firmware();
        write_text(&mut buf, 23, &firmware, 8);
        let model = identify_model();
        write_text(&mut buf, 27, &model, 40);
        proof {
            assert forall|b: int| 0 <= b < 512 implies buf@[b] == spec_identify_byte(v0, b) by {
                if 20 <= b < 40 {
                } else if 46 <= b < 54 {
                } else if 54 <= b < 94 {
                }
            }
            assert(buf@ =~= spec_identify_buffer(v0));
        }
        self.data_buffer = buf;
    }
}

/// Store `text`, padded with spaces to `max_len` bytes, from word `word_index` on.
fn write_text(buf: &mut Vec<u8>, word_index: usize, text: &Vec<u8>, max_len: usize)
    requires
        word_index * 2 + max_len <= old(buf)@.len(),
    ensures
        final(buf)@.len() == old(buf)@.len(),
        forall|b: int|
            0 <= b < old(buf)@.len() ==> final(buf)@[b] == (if word_index * 2 <= b < word_index * 2 + max_len {
                spec_padded(text@, b - word_index * 2)
            } else {
                old(buf)@[b]
            }),
{
    let ghost b0 = buf@;
    let n = buf.len();
    let mut i: usize = 0;
    while i < max_len
        invariant
            n == b0.len(),
            i <= max_len,
            word_index * 2 + max_len <= b0.len(),
            buf@.len() == b0.len(),
            forall|b: int|
                0 <= b < b0.len() ==> buf@[b] == (if word_index * 2 <= b < word_index * 2 + i {
                    spec_padded(text@, b - word_index * 2)
                } else {
                    b0[b]
                }),
        decreases max_len - i,
    {
        let c = if i < text.len() { text[i] } else { 0x20 };
        buf.set(word_index * 2 + i, c);
        i += 1;
    }
}


impl AtaController {
    /// Execute an ATA command written to the command register.
    pub fn write_command(&mut self, cmd: u8)
        requires
            spec_command_ok(old(self)@, cmd),
        ensures
            final(self)@ == spec_write_command(old(self)@, cmd),
    {
        let ghost v0 = self@;
        self.command = cmd;
        if self.command_log.len() == 32 {
            self.command_log.remove(0);
        }
        self.command_log.push(cmd);
        proof {
            assert(self.command_log@ =~= spec_log_command(v0.command_log, cmd));
        }
        self.status = (self.status | IDE_STATUS_BSY) & 0xFE;
        self.error = 0x01;
        if cmd == 0xEC {
            self.populate_identify_buffer();
            assert(self.data_buffer@ =~= spec_identify_buffer(v0));
            self.status = (self.status & 0x7F) | (IDE_STATUS_DRQ | IDE_STATUS_DRDY);
            self.data_index = 0;
            self.data_direction = DataDirection::Read;
            self.pending_irq = true;
        } else if cmd == 0x20 || cmd == 0x21 || cmd == 0xC4 {
            let lba = self.current_lba();
            assert(lba == spec_current_lba(v0));
            let count: usize = if self.nsector == 0 { 256 } else { self.nsector as usize };
            let buf = read_sectors(&self.disk_data, lba, count);
            self.data_buffer = buf;
            self.status = (self.status & 0x7F) | (IDE_STATUS_DRQ | IDE_STATUS_DRDY);
            self.data_index = 0;
            self.data_direction = DataDirection::Read;
            self.pending_irq = true;
        } else if cmd == 0x30 || cmd == 0x31 || cmd == 0xC5 {
            let count: usize = if self.nsector == 0 { 256 } else { self.nsector as usize };
            self.data_buffer = vec![0u8; count * 512];
            proof {
                assert(self.data_buffer@ =~= Seq::new((spec_sector_count(v0) * 512) as nat, |i: int| 0u8));
            }
            self.status = (self.status & 0x7F) | (IDE_STATUS_DRQ | IDE_STATUS_DRDY);
            self.data_index = 0;
            self.data_direction = DataDirection::Write;
        } else if cmd == 0x91 {
            let sel = self.select;
            assert(sel & 0x0F <= 15) by (bit_vector);
            self.heads = (sel & 0x0F) + 1;
            self.sectors_per_track = self.nsector as u16;
            self.status = (self.status & 0x7F) | IDE_STATUS_DRDY;
            self.data_direction = DataDirection::Idle;
            self.pending_irq = true;
        } else if cmd == 0x90 {
            self.error = 0x01;
            self.nsector = 0x01;
            self.sector = 0x01;
            self.lcyl = 0x00;
            self.hcyl = 0x00;
            self.status = (self.status & 0x7F) | IDE_STATUS_DRDY;
            self.data_direction = DataDirection::Idle;
            self.pending_irq = true;
        } else if 0x10 <= cmd && cmd <= 0x1F {
            self.sector = 0x01;
            self.lcyl = 0x00;
            self.hcyl = 0x00;
            self.status = (self.status & 0x7F) | IDE_STATUS_DRDY;
            self.data_direction = DataDirection::Idle;
            self.pending_irq = true;
        } else if cmd == 0xEF || cmd == 0x40 || cmd == 0x41 || cmd == 0xC6 {
            self.status = (self.status & 0x7F) | IDE_STATUS_DRDY;
            self.data_direction = DataDirection::Idle;
            self.pending_irq = true;
        } else {
            self.status = (self.status & 0x7F) | (IDE_STATUS_DRDY | IDE_STATUS_ERR);
            self.error = 0x04;
            self.data_direction = DataDirection::Idle;
            self.pending_irq = true;
        }
    }

    /// Move the data index to `ni`, ending the transfer at the end of the
    /// buffer (committing a write) and signalling each sector boundary.
    fn advance(&mut self, ni: usize)
        requires
            spec_commit_ok(old(self)@),
            old(self)@.data_buffer.len() > 0,
        ensures
            final(self)@ == spec_advance(old(self)@, ni),
    {
        self.data_index = ni;
        if ni >= self.data_buffer.len() {
            if self.data_direction == DataDirection::Write {
                self.commit();
            } else {
                self.status = self.status & 0xF7;
                self.data_direction = DataDirection::Idle;
            }
        } else if ni % 512 == 0 {
            self.pending_irq = true;
        }
    }

    /// Commit a completed write transfer to the hardfile.
    fn commit(&mut self)
        requires
            old(self)@.data_direction == DataDirection::Write,
            old(self)@.data_buffer.len() > 0,
            spec_commit_ok(old(self)@),
        ensures
            final(self)@ == spec_commit(old(self)@),
    {
        self.status = (self.status | IDE_STATUS_BSY) & 0xF7;
        let lba = self.current_lba();
        let start = (lba as usize) * 512;
        if let Some(data) = &mut self.disk_data {
            store_sectors(data, start, &self.data_buffer);
            self.hdf_dirty = true;
        }
        self.status = self.status & 0x7F;
        self.data_direction = DataDirection::Idle;
        self.pending_irq = true;
    }

    /// Read a 16-bit word from the IDE data port.
    pub fn read_data_word(&mut self) -> (r: u16)
        requires
            old(self)@.data_index + 2 <= usize::MAX,
        ensures
            (r, final(self)@) == spec_read_data_word(old(self)@),
    {
        if self.data_direction != DataDirection::Read || self.data_buffer.len() == 0 {
            return 0xFFFF;
        }
        let idx = self.data_index;
        let raw: u16 = if idx < self.data_buffer.len() && self.data_buffer.len() - idx > 1 {
            (self.data_buffer[idx] as u16) * 256 + (self.data_buffer[idx + 1] as u16)
        } else {
            0xFFFF
        };
        let val = if self.command == 0xEC { (raw % 256) * 256 + raw / 256 } else { raw };
        self.advance(idx + 2);
        val
    }

    /// Write a 16-bit word to the IDE data port.
    pub fn write_data_word(&mut self, val: u16)
        requires
            old(self)@.data_index + 2 <= usize::MAX,
            spec_commit_ok(old(self)@),
        ensures
            final(self)@ == spec_write_data_word(old(self)@, val),
    {
        if self.data_direction != DataDirection::Write || self.data_buffer.len() == 0 {
            return;
        }
        let idx = self.data_index;
        if idx < self.data_buffer.len() && self.data_buffer.len() - idx > 1 {
            self.data_buffer.set(idx, (val / 256) as u8);
            self.data_buffer.set(idx + 1, (val % 256) as u8);
        }
        self.advance(idx + 2);
    }

    fn read_data_byte(&mut self) -> (r: u8)
        requires
            spec_byte_port_ok(old(self)@),
        ensures
            (r, final(self)@) == spec_read_data_byte(old(self)@),
    {
        if self.data_direction != DataDirection::Read || self.data_buffer.len() == 0 {
            return 0xFF;
        }
        let val = self.data_buffer[self.data_index];
        self.advance(self.data_index + 1);
        val
    }

    fn write_data_byte(&mut self, val: u8)
        requires
            spec_byte_port_ok(old(self)@),
            spec_commit_ok(old(self)@),
        ensures
            final(self)@ == spec_write_data_byte(old(self)@, val),
    {
        if self.data_direction != DataDirection::Write || self.data_buffer.len() == 0 {
            return;
        }
        let idx = self.data_index;
        self.data_buffer.set(idx, val);
        self.advance(idx + 1);
    }

    /// Read an ATA taskfile register (`is_control` selects the control block).
    pub fn read_register(&mut self, reg: usize, is_control: bool) -> (r: u8)
        requires
            spec_byte_port_ok(old(self)@),
        ensures
            (r, final(self)@) == spec_read_register(old(self)@, reg, is_control),
    {
        if self.disk_data.is_none() {
            if reg == 7 && !is_control {
                return 0x7F;
            }
            return 0xFF;
        }
        if (self.select & 0x10) != 0 {
            if reg == 7 {
                return IDE_STATUS_ERR;
            }
            return 0x00;
        }
        if is_control {
            if reg == 7 {
                return self.status;
            }
            return 0xFF;
        }
        if reg == 0 {
            self.read_data_byte()
        } else if reg == 1 {
            self.error
        } else if reg == 2 {
            self.nsector
        } else if reg == 3 {
            self.sector
        } else if reg == 4 {
            self.lcyl
        } else if reg == 5 {
            self.hcyl
        } else if reg == 6 {
            self.select
        } else if reg == 7 {
            self.status
        } else {
            0xFF
        }
    }

    /// Write an ATA taskfile register (`is_control` selects the control block).
    pub fn write_register(&mut self, reg: usize, is_control: bool, value: u8)
        requires
            spec_byte_port_ok(old(self)@),
            spec_commit_ok(old(self)@),
            !is_control && reg == 7 ==> spec_command_ok(old(self)@, value),
        ensures
            final(self)@ == spec_write_register(old(self)@, reg, is_control, value),
    {
        if is_control {
            if reg == 7 {
                let old_devcon = self.devcon;
                self.devcon = value;
                if (old_devcon & 0x04) == 0 && (value & 0x04) != 0 {
                    self.status = IDE_STATUS_BSY;
                    self.error = 0x01;
                    self.nsector = 0x01;
                    self.sector = 0x01;
                    self.lcyl = 0x00;
                    self.hcyl = 0x00;
                    self.data_direction = DataDirection::Idle;
                } else if (old_devcon & 0x04) != 0 && (value & 0x04) == 0 {
                    self.status = IDE_STATUS_DRDY | IDE_STATUS_DSC;
                }
            }
            return;
        }
        if (self.select & 0x10) != 0 && reg != 6 {
            return;
        }
        if reg == 0 {
            self.write_data_byte(value);
        } else if reg == 2 {
            self.nsector = value;
        } else if reg == 3 {
            self.sector = value;
        } else if reg == 4 {
            self.lcyl = value;
        } else if reg == 5 {
            self.hcyl = value;
        } else if reg == 6 {
            self.select = value;
        } else if reg == 7 {
            self.write_command(value);
        }
    }
}

/// The buffer for a read of `count` sectors from `lba`.
fn read_sectors(disk: &Option<Vec<u8>>, lba: u32, count: usize) -> (r: Vec<u8>)
    requires
        1 <= count <= 256,
    ensures
        r@ == spec_read_buffer(spec_opt_bytes(*disk), lba, count as int),
{
    let mut buf: Vec<u8> = vec![0u8; count * 512];
    let ghost dv = spec_opt_bytes(*disk);
    if let Some(data) = disk {
        let start = (lba as u64) * 512;
        if start < data.len() as u64 {
            let s = start as usize;
            let dn = data.len();
            let avail = data.len() - s;
            let len = if avail < count * 512 { avail } else { count * 512 };
            let mut k: usize = 0;
            while k < len
                invariant
                    dn == data@.len(),
                    k <= len,
                    len <= count * 512,
                    s + len <= data@.len(),
                    s == lba as int * 512,
                    len == (if data@.len() - s < count * 512 { data@.len() - s } else { count * 512 }),
                    buf@.len() == count * 512,
                    forall|i: int| 0 <= i < count * 512 ==> buf@[i] == (if i < k { data@[s + i] } else { 0u8 }),
                decreases len - k,
            {
                buf.set(k, data[s + k]);
                k += 1;
            }
        }
    }
    assert(buf@ =~= spec_read_buffer(dv, lba, count as int));
    buf
}

/// Store `buf` in `data` from byte `start`, growing `data` with zeros.
fn store_sectors(data: &mut Vec<u8>, start: usize, buf: &Vec<u8>)
    requires
        start + buf@.len() <= usize::MAX,
    ensures
        final(data)@ == spec_store_sectors(old(data)@, start as int, buf@),
{
    let ghost d0 = data@;
    let end = start + buf.len();
    while data.len() < end
        invariant
            d0.len() <= data@.len() <= (if end > d0.len() { end as int } else { d0.len() as int }),
            forall|i: int| 0 <= i < data@.len() ==> data@[i] == (if i < d0.len() { d0[i] } else { 0u8 }),
        decreases end - data@.len(),
    {
        data.push(0);
    }
    let mut k: usize = 0;
    while k < buf.len()
        invariant
            k <= buf@.len(),
            end == start + buf@.len(),
            data@.len() == (if end > d0.len() { end as int } else { d0.len() as int }),
            forall|i: int|
                0 <= i < data@.len() ==> data@[i] == (if start <= i < start + k {
                    buf@[i - start]
                } else if i < d0.len() {
                    d0[i]
                } else {
                    0u8
                }),
        decreases buf@.len() - k,
    {
        data.set(start + k, buf[k]);
        k += 1;
    }
    assert(data@ =~= spec_store_sectors(d0, start as int, buf@));
}


/// Sectors written to the hardfile read back unchanged: after a write
/// transfer of whole sectors is committed at an LBA, reading the same number
/// of sectors from that LBA yields exactly the written bytes.
pub proof fn law_written_sectors_read_back(d: Seq<u8>, lba: u32, buf: Seq<u8>, count: int)
    requires
        1 <= count,
        buf.len() == count * 512,
    ensures
        spec_read_buffer(Some(spec_store_sectors(d, lba as int * 512, buf)), lba, count) == buf,
{
    let stored = spec_store_sectors(d, lba as int * 512, buf);
    assert(spec_read_buffer(Some(stored), lba, count) =~= buf);
}

/// The IDE fallback translation never addresses past the end of the image:
/// its cylinders times 16 heads times 63 sectors is at most the sector count.
pub proof fn law_fallback_geometry_within_image(total_sectors: u64)
    ensures
        ({
            let g = spec_ide_fallback_geometry(total_sectors);
            g.0 as int * g.1 as int * g.2 as int <= total_sectors
        }),
{
    let t = total_sectors as int;
    assert((t / 1008) * 1008 <= t) by (nonlinear_arith)
        requires
            t >= 0,
    ;
    if t / 1008 >= 16383 {
        assert(16383 * 1008 <= t) by (nonlinear_arith)
            requires
                t / 1008 >= 16383,
                (t / 1008) * 1008 <= t,
        ;
    }
}

/// A usable Rigid Disk Block geometry fits the controller's CHS registers, so
/// mounting it loses nothing: cylinders in 16 bits, heads in 8, sectors per
/// track in 16.
pub proof fn law_usable_rdb_fits_registers(data: Seq<u8>)
    requires
        spec_rdb_scan(data, 0).usable,
    ensures
        spec_rdb_scan(data, 0).cylinders as u16 == spec_rdb_scan(data, 0).cylinders,
        spec_rdb_scan(data, 0).heads as u8 == spec_rdb_scan(data, 0).heads,
        spec_rdb_scan(data, 0).sectors_per_track as u16 == spec_rdb_scan(data, 0).sectors_per_track,
{
    lemma_scan_usable_supported(data, 0);
}

proof fn lemma_scan_usable_supported(data: Seq<u8>, b: int)
    requires
        spec_rdb_scan(data, b).usable,
    ensures
        spec_rdb_supported(spec_rdb_scan(data, b)),
    decreases RDB_SCAN_BLOCKS - b,
{
    let blocks = if data.len() / 512 < 16 { data.len() / 512 } else { 16 };
    if b >= 0 && b < blocks && b * 512 + RDB_HEADS_OFFSET + 4 <= data.len() && !spec_rdb_tag(data, b * 512) {
        lemma_scan_usable_supported(data, b + 1);
    }
}

} // verus!
