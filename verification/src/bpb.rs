//! The Boot Parameter Block: the on-disk geometry descriptor in sector 0.
//!
//! [`Bpb::load`] validates the 512-byte boot sector, parses the variant
//! extension, computes the derived geometry, and classifies the volume as
//! FAT12, FAT16 or FAT32 from its count of data clusters.

use vstd::prelude::*;

use crate::FatType;
use crate::utils::{load_u16_le, load_u32_le, u16_le, u32_le};

verus! {

broadcast use vstd::slice::axiom_spec_len;

/// Why a boot sector was rejected.  Each variant names the first failed
/// check, in validation order.
#[derive(Debug, Clone, Copy, PartialEq, Eq, Structural)]
pub enum BpbError {
    /// Fewer than 512 bytes were given.
    TooShort,
    /// Bytes per sector is not 512, 1024, 2048 or 4096.
    InvalidBytesPerSector,
    /// Sectors per cluster is not a power of two in 1 to 128.
    InvalidSectorsPerCluster,
    /// The reserved sector count is zero.
    ZeroReservedSectors,
    /// The media byte is not 0xF0 nor in 0xF8 to 0xFF.
    InvalidMedia,
    /// The word at offset 510 is not 0x55 0xAA.
    InvalidSignature,
    /// A 16-bit-shape extension carries a drive number other than 0x00 or 0x80.
    InvalidDriveNumber,
    /// A serial number or label is present but the boot signature byte is not 0x29.
    InvalidBootSig,
    /// The informational file-system-type string has an unexpected value.
    InvalidFileSysType,
    /// The 16-bit FAT size is zero but the 16-bit total sector count is not.
    TotalSectorsNotZero,
    /// A FAT32 extension carries a zero 32-bit FAT size.
    ZeroFatSize32,
    /// A FAT32 extension carries a nonzero filesystem version.
    InvalidFsVersion,
    /// The backup boot sector is neither 0 nor 6.
    InvalidBackupBootSector,
    /// A reserved region of the FAT32 extension is not zeroed.
    ReservedNotZero,
    /// A FAT12 or FAT16 volume has a zero root entry count.
    ZeroRootEntryCount,
    /// The total sector count does not cover the reserved, FAT and root
    /// directory regions.
    BadGeometry,
    /// The extension shape on disk contradicts the variant implied by the
    /// count of clusters.
    VariantMismatch,
}

/// True when every byte of `s` is zero.
pub open spec fn all_zero(s: Seq<u8>) -> bool {
    forall|i: int| 0 <= i < s.len() ==> s[i] == 0
}

/// The bytes of the informational string `"FAT12   "`.
pub open spec fn fst_fat12() -> Seq<u8> {
    seq![0x46u8, 0x41, 0x54, 0x31, 0x32, 0x20, 0x20, 0x20]
}

/// The bytes of the informational string `"FAT16   "`.
pub open spec fn fst_fat16() -> Seq<u8> {
    seq![0x46u8, 0x41, 0x54, 0x31, 0x36, 0x20, 0x20, 0x20]
}

/// The bytes of the informational string `"FAT     "`.
pub open spec fn fst_fat() -> Seq<u8> {
    seq![0x46u8, 0x41, 0x54, 0x20, 0x20, 0x20, 0x20, 0x20]
}

/// The bytes of the informational string `"FAT32   "`.
pub open spec fn fst_fat32() -> Seq<u8> {
    seq![0x46u8, 0x41, 0x54, 0x33, 0x32, 0x20, 0x20, 0x20]
}

/// Bytes per sector field of a boot sector.
pub open spec fn spec_bytes_per_sector(b: Seq<u8>) -> int {
    u16_le(b.subrange(11, 13))
}

/// Sectors per cluster field.
pub open spec fn spec_sectors_per_cluster(b: Seq<u8>) -> int {
    b[13] as int
}

/// Reserved sector count field.
pub open spec fn spec_reserved_sector_count(b: Seq<u8>) -> int {
    u16_le(b.subrange(14, 16))
}

/// Number-of-FATs field.
pub open spec fn spec_num_fats(b: Seq<u8>) -> int {
    b[16] as int
}

/// Root entry count field.
pub open spec fn spec_root_entry_count(b: Seq<u8>) -> int {
    u16_le(b.subrange(17, 19))
}

/// 16-bit total sector count field.
pub open spec fn spec_total_sectors_16(b: Seq<u8>) -> int {
    u16_le(b.subrange(19, 21))
}

/// Media byte.
pub open spec fn spec_media(b: Seq<u8>) -> int {
    b[21] as int
}

/// 16-bit FAT size field.
pub open spec fn spec_fat_size_16(b: Seq<u8>) -> int {
    u16_le(b.subrange(22, 24))
}

/// 32-bit total sector count field.
pub open spec fn spec_total_sectors_32(b: Seq<u8>) -> int {
    u32_le(b.subrange(32, 36))
}

/// 32-bit FAT size field of a FAT32 extension.
pub open spec fn spec_fat_size_32(b: Seq<u8>) -> int {
    u32_le(b.subrange(36, 40))
}

/// A zero 16-bit FAT size marks the FAT32 extension shape.
pub open spec fn spec_is_fat32_shape(b: Seq<u8>) -> bool {
    spec_fat_size_16(b) == 0
}

/// The FAT size in sectors, from whichever field the shape selects.
pub open spec fn spec_fat_size_of(b: Seq<u8>) -> int {
    if spec_is_fat32_shape(b) {
        spec_fat_size_32(b)
    } else {
        spec_fat_size_16(b)
    }
}

/// The total sector count, from whichever field is nonzero.
pub open spec fn spec_total_sectors_of(b: Seq<u8>) -> int {
    if spec_total_sectors_16(b) == 0 {
        spec_total_sectors_32(b)
    } else {
        spec_total_sectors_16(b)
    }
}

/// Sectors occupied by the fixed root directory, rounded up.
pub open spec fn spec_root_dir_sectors_of(b: Seq<u8>) -> int {
    (32 * spec_root_entry_count(b) + spec_bytes_per_sector(b) - 1) / spec_bytes_per_sector(b)
}

/// Sectors in front of the data region: reserved, FAT copies and root
/// directory.
pub open spec fn spec_overhead_sectors_of(b: Seq<u8>) -> int {
    spec_reserved_sector_count(b) + spec_num_fats(b) * spec_fat_size_of(b)
        + spec_root_dir_sectors_of(b)
}

/// The count of data clusters, which alone decides the FAT variant.
pub open spec fn spec_count_of_clusters_of(b: Seq<u8>) -> int {
    (spec_total_sectors_of(b) - spec_overhead_sectors_of(b)) / spec_sectors_per_cluster(b)
}

/// The variant implied by the count of data clusters.
pub open spec fn spec_classify(b: Seq<u8>) -> FatType {
    if spec_count_of_clusters_of(b) < 4085 {
        FatType::Fat12
    } else if spec_count_of_clusters_of(b) < 65525 {
        FatType::Fat16
    } else {
        FatType::Fat32
    }
}

/// Validity of the bytes-per-sector field.
pub open spec fn spec_bps_ok(b: Seq<u8>) -> bool {
    spec_bytes_per_sector(b) == 512 || spec_bytes_per_sector(b) == 1024 || spec_bytes_per_sector(b)
        == 2048 || spec_bytes_per_sector(b) == 4096
}

/// Validity of the sectors-per-cluster field.
pub open spec fn spec_spc_ok(b: Seq<u8>) -> bool {
    ||| spec_sectors_per_cluster(b) == 1
    ||| spec_sectors_per_cluster(b) == 2
    ||| spec_sectors_per_cluster(b) == 4
    ||| spec_sectors_per_cluster(b) == 8
    ||| spec_sectors_per_cluster(b) == 16
    ||| spec_sectors_per_cluster(b) == 32
    ||| spec_sectors_per_cluster(b) == 64
    ||| spec_sectors_per_cluster(b) == 128
}

/// Validity of the media byte.
pub open spec fn spec_media_ok(b: Seq<u8>) -> bool {
    spec_media(b) == 0xF0 || (0xF8 <= spec_media(b) <= 0xFF)
}

/// Validity of the boot signature word at offset 510.
pub open spec fn spec_sig_ok(b: Seq<u8>) -> bool {
    b[510] == 0x55 && b[511] == 0xAA
}

/// Validity of a 16-bit-shape extension (offsets 36 to 62).
pub open spec fn spec_ext16_ok(b: Seq<u8>) -> bool {
    &&& (b[36] == 0x00 || b[36] == 0x80)
    &&& ((u32_le(b.subrange(39, 43)) != 0 || !all_zero(b.subrange(43, 54))) ==> b[38] == 0x29)
    &&& (b.subrange(54, 62) == fst_fat12() || b.subrange(54, 62) == fst_fat16() || b.subrange(
        54,
        62,
    ) == fst_fat())
}

/// Validity of a FAT32 extension (offsets 36 to 90).
pub open spec fn spec_ext32_ok(b: Seq<u8>) -> bool {
    &&& spec_fat_size_32(b) != 0
    &&& u16_le(b.subrange(42, 44)) == 0
    &&& (u16_le(b.subrange(50, 52)) == 0 || u16_le(b.subrange(50, 52)) == 6)
    &&& all_zero(b.subrange(52, 64))
    &&& b[65] == 0
    &&& ((u32_le(b.subrange(67, 71)) != 0 || !all_zero(b.subrange(71, 82))) ==> b[66] == 0x29)
    &&& b.subrange(82, 90) == fst_fat32()
}

/// Everything `Bpb::load` checks, in one predicate: a boot sector is
/// accepted exactly when this holds.
pub open spec fn spec_bpb_valid(b: Seq<u8>) -> bool {
    &&& b.len() >= 512
    &&& spec_bps_ok(b)
    &&& spec_spc_ok(b)
    &&& spec_reserved_sector_count(b) != 0
    &&& spec_media_ok(b)
    &&& spec_sig_ok(b)
    &&& (if spec_is_fat32_shape(b) {
        &&& spec_total_sectors_16(b) == 0
        &&& spec_ext32_ok(b)
        &&& spec_total_sectors_of(b) >= spec_overhead_sectors_of(b)
        &&& spec_count_of_clusters_of(b) >= 65525
    } else {
        &&& spec_ext16_ok(b)
        &&& spec_root_entry_count(b) != 0
        &&& spec_total_sectors_of(b) >= spec_overhead_sectors_of(b)
        &&& spec_count_of_clusters_of(b) < 65525
    })
}

/// The extended fields of a FAT12 or FAT16 boot sector.
#[derive(Debug, Clone)]
pub struct ExtBpb16 {
    pub drive_number: u8,
    pub boot_sig: u8,
    pub volume_serial_number: u32,
    pub volume_label: Vec<u8>,
    pub file_sys_type: Vec<u8>,
}

/// The extended fields of a FAT32 boot sector.
#[derive(Debug, Clone)]
pub struct ExtBpb32 {
    pub fat_size_32: u32,
    pub ext_flags: u16,
    pub root_cluster: u32,
    pub fs_info: u16,
    pub bk_boot_sector: u16,
    pub drive_number: u8,
    pub boot_sig: u8,
    pub volume_serial_number: u32,
    pub volume_label: Vec<u8>,
}

/// Either variant extension of a boot sector.
#[derive(Debug, Clone)]
pub enum ExtBpb {
    ExtBpb16(ExtBpb16),
    ExtBpb32(ExtBpb32),
}

/// True when the bytes of `b` from `start` (inclusive) to `end` (exclusive)
/// are all zero.
fn range_all_zero(bytes: &[u8], start: usize, end: usize) -> (r: bool)
    requires
        start <= end <= bytes@.len(),
    ensures
        r == all_zero(bytes@.subrange(start as int, end as int)),
{
    let mut i: usize = start;
    while i < end
        invariant
            start <= i <= end <= bytes@.len(),
            forall|j: int| start <= j < i ==> bytes@[j] == 0,
        decreases end - i,
    {
        if bytes[i] != 0 {
            assert(!all_zero(bytes@.subrange(start as int, end as int))) by {
                assert(bytes@.subrange(start as int, end as int)[i - start] != 0);
            }
            return false;
        }
        i += 1;
    }
    assert forall|j: int| 0 <= j < end - start implies bytes@.subrange(start as int, end as int)[j]
        == 0 by {
        assert(bytes@[start + j] == 0);
    }
    true
}

/// Compares eight bytes of `b` starting at `start` with the eight bytes of
/// `pat`.
fn range_eq8(bytes: &[u8], start: usize, pat: &[u8; 8]) -> (r: bool)
    requires
        start + 8 <= bytes@.len(),
    ensures
        r == (bytes@.subrange(start as int, start + 8) == pat@),
{
    let n: usize = bytes.len();
    let mut i: usize = 0;
    while i < 8
        invariant
            0 <= i <= 8,
            start + 8 <= n == bytes@.len(),
            pat@.len() == 8,
            forall|j: int| 0 <= j < i ==> bytes@[start + j] == pat@[j],
        decreases 8 - i,
    {
        if bytes[start + i] != pat[i] {
            assert(bytes@.subrange(start as int, start + 8)[i as int] != pat@[i as int]);
            return false;
        }
        i += 1;
    }
    assert(bytes@.subrange(start as int, start + 8) =~= pat@) by {
        assert forall|j: int| 0 <= j < 8 implies bytes@.subrange(start as int, start + 8)[j]
            == pat@[j] by {
            assert(bytes@[start + j] == pat@[j]);
        }
    }
    true
}

/// The first failed check of a 16-bit-shape extension.
pub open spec fn spec_ext16_err(b: Seq<u8>) -> BpbError
    recommends
        !spec_ext16_ok(b),
{
    if !(b[36] == 0x00 || b[36] == 0x80) {
        BpbError::InvalidDriveNumber
    } else if (u32_le(b.subrange(39, 43)) != 0 || !all_zero(b.subrange(43, 54))) && b[38] != 0x29 {
        BpbError::InvalidBootSig
    } else {
        BpbError::InvalidFileSysType
    }
}

impl ExtBpb16 {
    /// Parses the FAT12/FAT16 extension of a full boot sector.  Succeeds
    /// exactly when `spec_ext16_ok` holds of the bytes, carrying the parsed
    /// fields; fails with the first failed check.
    pub fn load(bytes: &[u8]) -> (r: Result<ExtBpb16, BpbError>)
        requires
            bytes@.len() >= 512,
        ensures
            r is Ok <==> spec_ext16_ok(bytes@),
            r is Err ==> r->Err_0 == spec_ext16_err(bytes@),
            r is Ok ==> ({
                let e = r->Ok_0;
                &&& e.drive_number == bytes@[36]
                &&& e.boot_sig == bytes@[38]
                &&& e.volume_serial_number as int == u32_le(bytes@.subrange(39, 43))
                &&& e.volume_label@ == bytes@.subrange(43, 54)
                &&& e.file_sys_type@ == bytes@.subrange(54, 62)
            }),
    {
        let drive_number = bytes[36];

        if !(drive_number == 0x00 || drive_number == 0x80) {
            return Err(BpbError::InvalidDriveNumber);
        }

        let boot_sig = bytes[38];
        let volume_serial_number = load_u32_le(&bytes[39..43]);
        let label_zero = range_all_zero(bytes, 43, 54);

        if (volume_serial_number != 0 || !label_zero) && boot_sig != 0x29 {
            return Err(BpbError::InvalidBootSig);
        }

        let is_fat12 = range_eq8(bytes, 54, &[0x46, 0x41, 0x54, 0x31, 0x32, 0x20, 0x20, 0x20]);
        let is_fat16 = range_eq8(bytes, 54, &[0x46, 0x41, 0x54, 0x31, 0x36, 0x20, 0x20, 0x20]);
        let is_plain = range_eq8(bytes, 54, &[0x46, 0x41, 0x54, 0x20, 0x20, 0x20, 0x20, 0x20]);

        if !(is_fat12 || is_fat16 || is_plain) {
            return Err(BpbError::InvalidFileSysType);
        }

        let volume_label = vstd::slice::slice_to_vec(&bytes[43..54]);
        let file_sys_type = vstd::slice::slice_to_vec(&bytes[54..62]);

        Ok(ExtBpb16 { drive_number, boot_sig, volume_serial_number, volume_label, file_sys_type })
    }
}

/// The first failed check of a FAT32 extension.
pub open spec fn spec_ext32_err(b: Seq<u8>) -> BpbError
    recommends
        !spec_ext32_ok(b),
{
    if spec_fat_size_32(b) == 0 {
        BpbError::ZeroFatSize32
    } else if u16_le(b.subrange(42, 44)) != 0 {
        BpbError::InvalidFsVersion
    } else if !(u16_le(b.subrange(50, 52)) == 0 || u16_le(b.subrange(50, 52)) == 6) {
        BpbError::InvalidBackupBootSector
    } else if !all_zero(b.subrange(52, 64)) || b[65] != 0 {
        BpbError::ReservedNotZero
    } else if (u32_le(b.subrange(67, 71)) != 0 || !all_zero(b.subrange(71, 82))) && b[66] != 0x29 {
        BpbError::InvalidBootSig
    } else {
        BpbError::InvalidFileSysType
    }
}

impl ExtBpb32 {
    /// Parses the FAT32 extension of a full boot sector.  Succeeds exactly
    /// when `spec_ext32_ok` holds of the bytes, carrying the parsed fields;
    /// fails with the first failed check.
    pub fn load(bytes: &[u8]) -> (r: Result<ExtBpb32, BpbError>)
        requires
            bytes@.len() >= 512,
        ensures
            r is Ok <==> spec_ext32_ok(bytes@),
            r is Err ==> r->Err_0 == spec_ext32_err(bytes@),
            r is Ok ==> ({
                let e = r->Ok_0;
                &&& e.fat_size_32 as int == spec_fat_size_32(bytes@)
                &&& e.ext_flags as int == u16_le(bytes@.subrange(40, 42))
                &&& e.root_cluster as int == u32_le(bytes@.subrange(44, 48))
                &&& e.fs_info as int == u16_le(bytes@.subrange(48, 50))
                &&& e.bk_boot_sector as int == u16_le(bytes@.subrange(50, 52))
                &&& e.drive_number == bytes@[64]
                &&& e.boot_sig == bytes@[66]
                &&& e.volume_serial_number as int == u32_le(bytes@.subrange(67, 71))
                &&& e.volume_label@ == bytes@.subrange(71, 82)
            }),
    {
        let fat_size_32 = load_u32_le(&bytes[36..40]);

        if fat_size_32 == 0 {
            return Err(BpbError::ZeroFatSize32);
        }

        let ext_flags = load_u16_le(&bytes[40..42]);
        let fs_ver = load_u16_le(&bytes[42..44]);

        if fs_ver != 0 {
            return Err(BpbError::InvalidFsVersion);
        }

        let root_cluster = load_u32_le(&bytes[44..48]);
        let fs_info = load_u16_le(&bytes[48..50]);
        let bk_boot_sector = load_u16_le(&bytes[50..52]);

        if !(bk_boot_sector == 0 || bk_boot_sector == 6) {
            return Err(BpbError::InvalidBackupBootSector);
        }

        if !range_all_zero(bytes, 52, 64) {
            return Err(BpbError::ReservedNotZero);
        }

        let drive_number = bytes[64];

        if bytes[65] != 0 {
            return Err(BpbError::ReservedNotZero);
        }

        let boot_sig = bytes[66];
        let volume_serial_number = load_u32_le(&bytes[67..71]);
        let label_zero = range_all_zero(bytes, 71, 82);

        if (volume_serial_number != 0 || !label_zero) && boot_sig != 0x29 {
            return Err(BpbError::InvalidBootSig);
        }

        if !range_eq8(bytes, 82, &[0x46, 0x41, 0x54, 0x33, 0x32, 0x20, 0x20, 0x20]) {
            return Err(BpbError::InvalidFileSysType);
        }

        let volume_label = vstd::slice::slice_to_vec(&bytes[71..82]);

        Ok(
            ExtBpb32 {
                fat_size_32,
                ext_flags,
                root_cluster,
                fs_info,
                bk_boot_sector,
                drive_number,
                boot_sig,
                volume_serial_number,
                volume_label,
            },
        )
    }
}

/// The decoded Boot Parameter Block with its derived geometry.
#[derive(Debug, Clone)]
pub struct Bpb {
    pub fat_type: FatType,
    pub oem_name: Vec<u8>,
    pub bytes_per_sector: u16,
    pub sectors_per_cluster: u8,
    pub reserved_sector_count: u16,
    pub num_fats: u8,
    pub root_entry_count: u16,
    pub total_sectors_16: u16,
    pub media: u8,
    pub fat_size_16: u16,
    pub sectors_per_track: u16,
    pub num_heads: u16,
    pub hidden_sectors: u32,
    pub total_sectors_32: u32,
    pub ext_bpb: ExtBpb,
}

impl Bpb {
    /// The FAT size in sectors: the 16-bit field, or the 32-bit field of a
    /// FAT32 extension.
    pub open spec fn spec_fat_size(self) -> int {
        match self.ext_bpb {
            ExtBpb::ExtBpb16(_) => self.fat_size_16 as int,
            ExtBpb::ExtBpb32(e) => e.fat_size_32 as int,
        }
    }

    /// The total sector count, from whichever field is nonzero.
    pub open spec fn spec_total_sectors(self) -> int {
        if self.total_sectors_16 == 0 {
            self.total_sectors_32 as int
        } else {
            self.total_sectors_16 as int
        }
    }

    /// Sectors of the fixed root directory, rounded up.
    pub open spec fn spec_root_dir_sectors(self) -> int {
        (32 * self.root_entry_count + self.bytes_per_sector - 1) as int / self.bytes_per_sector as int
    }

    /// The first data sector: reserved sectors, then the FAT copies, then
    /// the fixed root directory.
    pub open spec fn spec_first_data_sector(self) -> int {
        self.reserved_sector_count + self.num_fats * self.spec_fat_size()
            + self.spec_root_dir_sectors()
    }

    /// Sectors usable for data.
    pub open spec fn spec_data_sectors(self) -> int {
        self.spec_total_sectors() - self.spec_first_data_sector()
    }

    /// The count of data clusters, which alone decides the FAT variant.
    pub open spec fn spec_count_of_clusters(self) -> int {
        self.spec_data_sectors() / self.sectors_per_cluster as int
    }

    /// Bytes in one cluster.
    pub open spec fn spec_bytes_per_cluster(self) -> int {
        self.sectors_per_cluster as int * self.bytes_per_sector as int
    }

    /// Byte offset of the first FAT copy.
    pub open spec fn spec_fat_offset(self) -> int {
        self.reserved_sector_count as int * self.bytes_per_sector as int
    }

    /// Bytes in one FAT copy.
    pub open spec fn spec_fat_len_bytes(self) -> int {
        self.spec_fat_size() * self.bytes_per_sector as int
    }

    /// Byte offset of the fixed root directory region.
    pub open spec fn spec_root_dir_offset(self) -> int {
        (self.reserved_sector_count + self.num_fats * self.spec_fat_size())
            * self.bytes_per_sector as int
    }

    /// Bytes in the fixed root directory region.
    pub open spec fn spec_root_dir_len_bytes(self) -> int {
        self.spec_root_dir_sectors() * self.bytes_per_sector as int
    }

    /// Byte offset of the data region.
    pub open spec fn spec_data_offset(self) -> int {
        self.spec_first_data_sector() * self.bytes_per_sector as int
    }

    /// Bytes in the data region.
    pub open spec fn spec_data_len_bytes(self) -> int {
        self.spec_data_sectors() * self.bytes_per_sector as int
    }

    /// Well-formedness of a decoded BPB: the checked field ranges, a variant
    /// extension matching the variant, a total sector count covering the
    /// front regions, and the variant implied by the count of clusters.
    pub open spec fn wf(self) -> bool {
        &&& (self.bytes_per_sector == 512 || self.bytes_per_sector == 1024
            || self.bytes_per_sector == 2048 || self.bytes_per_sector == 4096)
        &&& (self.sectors_per_cluster == 1 || self.sectors_per_cluster == 2
            || self.sectors_per_cluster == 4 || self.sectors_per_cluster == 8
            || self.sectors_per_cluster == 16 || self.sectors_per_cluster == 32
            || self.sectors_per_cluster == 64 || self.sectors_per_cluster == 128)
        &&& self.reserved_sector_count != 0
        &&& (self.media == 0xF0 || self.media >= 0xF8)
        &&& match self.ext_bpb {
            ExtBpb::ExtBpb16(_) => {
                &&& self.fat_size_16 != 0
                &&& self.fat_type != FatType::Fat32
                &&& self.root_entry_count != 0
            },
            ExtBpb::ExtBpb32(e) => {
                &&& self.fat_size_16 == 0
                &&& self.total_sectors_16 == 0
                &&& e.fat_size_32 != 0
                &&& self.fat_type == FatType::Fat32
            },
        }
        &&& self.spec_total_sectors() >= self.spec_first_data_sector()
        &&& self.fat_type == (if self.spec_count_of_clusters() < 4085 {
            FatType::Fat12
        } else if self.spec_count_of_clusters() < 65525 {
            FatType::Fat16
        } else {
            FatType::Fat32
        })
    }

    /// The first failed check of a whole boot sector.
    pub open spec fn spec_load_err(b: Seq<u8>) -> BpbError
        recommends
            !spec_bpb_valid(b),
    {
        if b.len() < 512 {
            BpbError::TooShort
        } else if !spec_bps_ok(b) {
            BpbError::InvalidBytesPerSector
        } else if !spec_spc_ok(b) {
            BpbError::InvalidSectorsPerCluster
        } else if spec_reserved_sector_count(b) == 0 {
            BpbError::ZeroReservedSectors
        } else if !spec_media_ok(b) {
            BpbError::InvalidMedia
        } else if !spec_sig_ok(b) {
            BpbError::InvalidSignature
        } else if spec_is_fat32_shape(b) {
            if spec_total_sectors_16(b) != 0 {
                BpbError::TotalSectorsNotZero
            } else if !spec_ext32_ok(b) {
                spec_ext32_err(b)
            } else if spec_total_sectors_of(b) < spec_overhead_sectors_of(b) {
                BpbError::BadGeometry
            } else {
                BpbError::VariantMismatch
            }
        } else {
            if !spec_ext16_ok(b) {
                spec_ext16_err(b)
            } else if spec_root_entry_count(b) == 0 {
                BpbError::ZeroRootEntryCount
            } else if spec_total_sectors_of(b) < spec_overhead_sectors_of(b) {
                BpbError::BadGeometry
            } else {
                BpbError::VariantMismatch
            }
        }
    }

    /// Validates and decodes a boot sector.  Succeeds exactly when
    /// `spec_bpb_valid` holds of the bytes; the result then carries the raw
    /// fields as read from their offsets, is well formed, and is classified
    /// by its count of clusters alone, whatever variant the extension
    /// claims.  On failure the error names the first failed check.
    #[verifier::rlimit(100)]
    pub fn load(bytes: &[u8]) -> (r: Result<Bpb, BpbError>)
        ensures
            r is Ok <==> spec_bpb_valid(bytes@),
            r is Err ==> r->Err_0 == Bpb::spec_load_err(bytes@),
            r is Ok ==> ({
                let bpb = r->Ok_0;
                &&& bpb.wf()
                &&& bpb.oem_name@ == bytes@.subrange(3, 11)
                &&& bpb.bytes_per_sector as int == spec_bytes_per_sector(bytes@)
                &&& bpb.sectors_per_cluster as int == spec_sectors_per_cluster(bytes@)
                &&& bpb.reserved_sector_count as int == spec_reserved_sector_count(bytes@)
                &&& bpb.num_fats as int == spec_num_fats(bytes@)
                &&& bpb.root_entry_count as int == spec_root_entry_count(bytes@)
                &&& bpb.total_sectors_16 as int == spec_total_sectors_16(bytes@)
                &&& bpb.media as int == spec_media(bytes@)
                &&& bpb.fat_size_16 as int == spec_fat_size_16(bytes@)
                &&& bpb.sectors_per_track as int == u16_le(bytes@.subrange(24, 26))
                &&& bpb.num_heads as int == u16_le(bytes@.subrange(26, 28))
                &&& bpb.hidden_sectors as int == u32_le(bytes@.subrange(28, 32))
                &&& bpb.total_sectors_32 as int == spec_total_sectors_32(bytes@)
                &&& bpb.fat_type == spec_classify(bytes@)
                &&& bpb.spec_fat_size() == spec_fat_size_of(bytes@)
                &&& bpb.spec_total_sectors() == spec_total_sectors_of(bytes@)
                &&& bpb.spec_count_of_clusters() == spec_count_of_clusters_of(bytes@)
            }),
    {
        let n: usize = bytes.len();
        if n < 512 {
            return Err(BpbError::TooShort);
        }

        let oem_name = vstd::slice::slice_to_vec(&bytes[3..11]);
        let bytes_per_sector = load_u16_le(&bytes[11..13]);

        if !(bytes_per_sector == 512 || bytes_per_sector == 1024 || bytes_per_sector == 2048
            || bytes_per_sector == 4096) {
            return Err(BpbError::InvalidBytesPerSector);
        }

        let sectors_per_cluster = bytes[13];

        if !(sectors_per_cluster == 1 || sectors_per_cluster == 2 || sectors_per_cluster == 4
            || sectors_per_cluster == 8 || sectors_per_cluster == 16 || sectors_per_cluster == 32
            || sectors_per_cluster == 64 || sectors_per_cluster == 128) {
            return Err(BpbError::InvalidSectorsPerCluster);
        }

        let reserved_sector_count = load_u16_le(&bytes[14..16]);

        if reserved_sector_count == 0 {
            return Err(BpbError::ZeroReservedSectors);
        }

        let num_fats = bytes[16];
        let root_entry_count = load_u16_le(&bytes[17..19]);
        let total_sectors_16 = load_u16_le(&bytes[19..21]);

        let media = bytes[21];

        if !(media == 0xF0 || media >= 0xF8) {
            return Err(BpbError::InvalidMedia);
        }

        let fat_size_16 = load_u16_le(&bytes[22..24]);
        let sectors_per_track = load_u16_le(&bytes[24..26]);
        let num_heads = load_u16_le(&bytes[26..28]);
        let hidden_sectors = load_u32_le(&bytes[28..32]);
        let total_sectors_32 = load_u32_le(&bytes[32..36]);

        if !(bytes[510] == 0x55 && bytes[511] == 0xAA) {
            return Err(BpbError::InvalidSignature);
        }

        let (fat_type, ext_bpb, fat_size) = if fat_size_16 == 0 {
            if total_sectors_16 != 0 {
                return Err(BpbError::TotalSectorsNotZero);
            }

            let ext = match ExtBpb32::load(bytes) {
                Ok(ext) => ext,
                Err(e) => {
                    return Err(e);
                },
            };

            let fat_size = ext.fat_size_32;
            (FatType::Fat32, ExtBpb::ExtBpb32(ext), fat_size)
        } else {
            let ext = match ExtBpb16::load(bytes) {
                Ok(ext) => ext,
                Err(e) => {
                    return Err(e);
                },
            };

            if root_entry_count == 0 {
                return Err(BpbError::ZeroRootEntryCount);
            }

            (FatType::Fat16, ExtBpb::ExtBpb16(ext), fat_size_16 as u32)
        };

        let total_sectors: u32 = if total_sectors_16 == 0 {
            total_sectors_32
        } else {
            total_sectors_16 as u32
        };

        let root_dir_sectors: u32 = (32 * (root_entry_count as u32) + (bytes_per_sector as u32) - 1)
            / (bytes_per_sector as u32);

        proof {
            assert((num_fats as u64) * (fat_size as u64) <= 255u64 * 0xFFFF_FFFFu64)
                by (nonlinear_arith)
                requires
                    num_fats <= 255,
                    fat_size <= 0xFFFF_FFFFu32,
            ;
        }

        let overhead: u64 = reserved_sector_count as u64 + (num_fats as u64) * (fat_size as u64)
            + root_dir_sectors as u64;

        if (total_sectors as u64) < overhead {
            return Err(BpbError::BadGeometry);
        }

        let count_of_clusters: u64 = ((total_sectors as u64) - overhead)
            / (sectors_per_cluster as u64);

        let fat_type = if count_of_clusters < 4085 {
            if !matches!(fat_type, FatType::Fat16) {
                return Err(BpbError::VariantMismatch);
            }
            FatType::Fat12
        } else if count_of_clusters < 65525 {
            if !matches!(fat_type, FatType::Fat16) {
                return Err(BpbError::VariantMismatch);
            }
            FatType::Fat16
        } else {
            if !matches!(fat_type, FatType::Fat32) {
                return Err(BpbError::VariantMismatch);
            }
            FatType::Fat32
        };

        let bpb = Bpb {
            fat_type,
            oem_name,
            bytes_per_sector,
            sectors_per_cluster,
            reserved_sector_count,
            num_fats,
            root_entry_count,
            total_sectors_16,
            media,
            fat_size_16,
            sectors_per_track,
            num_heads,
            hidden_sectors,
            total_sectors_32,
            ext_bpb,
        };

        Ok(bpb)
    }

    /// Number of sectors usable for data.
    pub fn num_data_sectors(&self) -> (r: u32)
        requires
            self.wf(),
        ensures
            r as int == self.spec_data_sectors(),
    {
        let fat_size = self.fat_size();
        proof {
            crate::utils::lemma_mul_le(
                self.num_fats as int,
                self.spec_fat_size(),
                255,
                0xFFFF_FFFF,
            );
        }
        let overhead: u64 = self.reserved_sector_count as u64 + (self.num_fats as u64) * (fat_size
            as u64) + self.root_dir_sectors() as u64;
        (self.total_sectors() as u64 - overhead) as u32
    }

    /// Total number of clusters covered by the volume's sectors.
    pub fn num_clusters(&self) -> (r: u32)
        requires
            self.wf(),
        ensures
            r as int == self.spec_total_sectors() / self.sectors_per_cluster as int,
    {
        self.total_sectors() / (self.sectors_per_cluster as u32)
    }

    /// Bytes in one cluster.
    pub fn bytes_per_cluster(&self) -> (r: usize)
        ensures
            r as int == self.spec_bytes_per_cluster(),
    {
        proof {
            crate::utils::lemma_mul_le(
                self.sectors_per_cluster as int,
                self.bytes_per_sector as int,
                255,
                65535,
            );
        }
        (self.sectors_per_cluster as usize) * (self.bytes_per_sector as usize)
    }

    /// Count of data clusters.
    pub fn count_of_clusters(&self) -> (r: u32)
        requires
            self.wf(),
        ensures
            r as int == self.spec_count_of_clusters(),
    {
        self.num_data_sectors() / (self.sectors_per_cluster as u32)
    }

    /// Byte offset of the first FAT copy.
    pub fn fat_offset(&self) -> (r: u64)
        ensures
            r as int == self.spec_fat_offset(),
    {
        proof {
            crate::utils::lemma_mul_le(
                self.reserved_sector_count as int,
                self.bytes_per_sector as int,
                65535,
                65535,
            );
        }
        (self.reserved_sector_count as u64) * (self.bytes_per_sector as u64)
    }

    /// Bytes in one FAT copy.
    pub fn fat_len_bytes(&self) -> (r: u64)
        ensures
            r as int == self.spec_fat_len_bytes(),
    {
        let fat_size = self.fat_size();
        proof {
            crate::utils::lemma_mul_le(
                self.spec_fat_size(),
                self.bytes_per_sector as int,
                0xFFFF_FFFF,
                65535,
            );
        }
        (fat_size as u64) * (self.bytes_per_sector as u64)
    }

    /// Byte offset of the fixed root directory; absent on FAT32, whose root
    /// is a cluster chain.
    pub fn root_directory_offset(&self) -> (r: Option<u64>)
        ensures
            self.fat_type == FatType::Fat32 ==> r is None,
            self.fat_type != FatType::Fat32 ==> r == Some(self.spec_root_dir_offset() as u64),
            self.fat_type != FatType::Fat32 ==> self.spec_root_dir_offset() <= u64::MAX,
    {
        if matches!(self.fat_type, FatType::Fat32) {
            return None;
        }

        let fat_size = self.fat_size();
        proof {
            crate::utils::lemma_mul_le(
                self.num_fats as int,
                self.spec_fat_size(),
                255,
                0xFFFF_FFFF,
            );
            crate::utils::lemma_mul_le(
                self.reserved_sector_count + self.num_fats * self.spec_fat_size(),
                self.bytes_per_sector as int,
                65535 + 255 * 0xFFFF_FFFFint,
                65535,
            );
        }
        Some(
            (self.reserved_sector_count as u64 + (self.num_fats as u64) * (fat_size as u64)) * (
            self.bytes_per_sector as u64),
        )
    }

    /// Number of sectors of the fixed root directory.
    pub fn root_dir_sectors(&self) -> (r: u32)
        requires
            self.bytes_per_sector != 0,
        ensures
            r as int == self.spec_root_dir_sectors(),
    {
        (32 * (self.root_entry_count as u32) + (self.bytes_per_sector as u32) - 1)
            / (self.bytes_per_sector as u32)
    }

    /// Bytes of the fixed root directory region.
    pub fn root_dir_len_bytes(&self) -> (r: u64)
        requires
            self.bytes_per_sector != 0,
        ensures
            r as int == self.spec_root_dir_len_bytes(),
    {
        proof {
            crate::utils::lemma_mul_le(
                self.spec_root_dir_sectors(),
                self.bytes_per_sector as int,
                0xFFFF_FFFF,
                65535,
            );
        }
        (self.root_dir_sectors() as u64) * (self.bytes_per_sector as u64)
    }

    /// The first data sector.
    pub fn first_data_sector(&self) -> (r: u32)
        requires
            self.wf(),
        ensures
            r as int == self.spec_first_data_sector(),
    {
        let fat_size = self.fat_size();
        proof {
            crate::utils::lemma_mul_le(
                self.num_fats as int,
                self.spec_fat_size(),
                255,
                0xFFFF_FFFF,
            );
        }
        (self.reserved_sector_count as u64 + (self.num_fats as u64) * (fat_size as u64)
            + self.root_dir_sectors() as u64) as u32
    }

    /// Byte offset of the data region.
    pub fn data_offset(&self) -> (r: u64)
        requires
            self.wf(),
        ensures
            r as int == self.spec_data_offset(),
    {
        proof {
            crate::utils::lemma_mul_le(
                self.spec_first_data_sector(),
                self.bytes_per_sector as int,
                0xFFFF_FFFF,
                65535,
            );
        }
        (self.first_data_sector() as u64) * (self.bytes_per_sector as u64)
    }

    /// Bytes of the data region.
    pub fn data_len_bytes(&self) -> (r: u64)
        requires
            self.wf(),
        ensures
            r as int == self.spec_data_len_bytes(),
    {
        proof {
            crate::utils::lemma_mul_le(
                self.spec_data_sectors(),
                self.bytes_per_sector as int,
                0xFFFF_FFFF,
                65535,
            );
        }
        (self.num_data_sectors() as u64) * (self.bytes_per_sector as u64)
    }

    /// The FAT variant.
    pub fn fat_type(&self) -> (r: FatType)
        ensures
            r == self.fat_type,
    {
        self.fat_type
    }

    /// The FAT size in sectors.
    pub fn fat_size(&self) -> (r: u32)
        ensures
            r as int == self.spec_fat_size(),
    {
        match &self.ext_bpb {
            ExtBpb::ExtBpb16(_) => self.fat_size_16 as u32,
            ExtBpb::ExtBpb32(e) => e.fat_size_32,
        }
    }

    /// The root directory's first cluster; present only on FAT32.
    pub fn root_cluster(&self) -> (r: Option<u32>)
        ensures
            r == match self.ext_bpb {
                ExtBpb::ExtBpb32(e) => Some(e.root_cluster),
                ExtBpb::ExtBpb16(_) => None::<u32>,
            },
    {
        match &self.ext_bpb {
            ExtBpb::ExtBpb32(e) => Some(e.root_cluster),
            ExtBpb::ExtBpb16(_) => None,
        }
    }

    /// Total number of sectors, from whichever field is nonzero.
    pub fn total_sectors(&self) -> (r: u32)
        ensures
            r as int == self.spec_total_sectors(),
    {
        if self.total_sectors_16 == 0 {
            self.total_sectors_32
        } else {
            self.total_sectors_16 as u32
        }
    }

    /// The OEM name bytes.
    pub fn oem_name(&self) -> (r: &[u8])
        ensures
            r@ == self.oem_name@,
    {
        self.oem_name.as_slice()
    }

    /// The OEM name as text, when it is UTF-8.
    pub fn oem_name_str(&self) -> (r: Option<&str>)
        ensures
            r is Some <==> vstd::utf8::valid_utf8(self.oem_name@),
            r is Some ==> r->Some_0@ == vstd::utf8::decode_utf8(self.oem_name@),
    {
        crate::utils::bytes_as_str(self.oem_name.as_slice())
    }

    /// Bytes per sector.
    pub fn bytes_per_sector(&self) -> (r: u16)
        ensures
            r == self.bytes_per_sector,
    {
        self.bytes_per_sector
    }

    /// Sectors per cluster.
    pub fn sectors_per_cluster(&self) -> (r: u8)
        ensures
            r == self.sectors_per_cluster,
    {
        self.sectors_per_cluster
    }

    /// Reserved sectors in front of the first FAT.
    pub fn reserved_sector_count(&self) -> (r: u16)
        ensures
            r == self.reserved_sector_count,
    {
        self.reserved_sector_count
    }

    /// Number of FAT copies.
    pub fn num_fats(&self) -> (r: u8)
        ensures
            r == self.num_fats,
    {
        self.num_fats
    }

    /// Number of 32-byte entries of the fixed root directory.
    pub fn root_entry_count(&self) -> (r: u16)
        ensures
            r == self.root_entry_count,
    {
        self.root_entry_count
    }

    /// The 16-bit total sector field.
    pub fn total_sectors_16(&self) -> (r: u16)
        ensures
            r == self.total_sectors_16,
    {
        self.total_sectors_16
    }

    /// The media byte.
    pub fn media(&self) -> (r: u8)
        ensures
            r == self.media,
    {
        self.media
    }

    /// The 16-bit FAT size field.
    pub fn fat_size_16(&self) -> (r: u16)
        ensures
            r == self.fat_size_16,
    {
        self.fat_size_16
    }

    /// Sectors per track, for legacy geometry.
    pub fn sectors_per_track(&self) -> (r: u16)
        ensures
            r == self.sectors_per_track,
    {
        self.sectors_per_track
    }

    /// Number of heads, for legacy geometry.
    pub fn num_heads(&self) -> (r: u16)
        ensures
            r == self.num_heads,
    {
        self.num_heads
    }

    /// Hidden sectors in front of this partition.
    pub fn hidden_sectors(&self) -> (r: u32)
        ensures
            r == self.hidden_sectors,
    {
        self.hidden_sectors
    }

    /// The 32-bit total sector field.
    pub fn total_sectors_32(&self) -> (r: u32)
        ensures
            r == self.total_sectors_32,
    {
        self.total_sectors_32
    }
}

impl ExtBpb16 {
    /// The BIOS drive number.
    pub fn drive_number(&self) -> (r: u8)
        ensures
            r == self.drive_number,
    {
        self.drive_number
    }

    /// The extended boot signature byte.
    pub fn boot_sig(&self) -> (r: u8)
        ensures
            r == self.boot_sig,
    {
        self.boot_sig
    }

    /// The volume serial number.
    pub fn volume_serial_number(&self) -> (r: u32)
        ensures
            r == self.volume_serial_number,
    {
        self.volume_serial_number
    }

    /// The volume label bytes.
    pub fn volume_label(&self) -> (r: &[u8])
        ensures
            r@ == self.volume_label@,
    {
        self.volume_label.as_slice()
    }

    /// The volume label as text, when it is UTF-8.
    pub fn volume_label_str(&self) -> (r: Option<&str>)
        ensures
            r is Some <==> vstd::utf8::valid_utf8(self.volume_label@),
            r is Some ==> r->Some_0@ == vstd::utf8::decode_utf8(self.volume_label@),
    {
        crate::utils::bytes_as_str(self.volume_label.as_slice())
    }

    /// The informational file-system-type bytes.
    pub fn file_sys_type(&self) -> (r: &[u8])
        ensures
            r@ == self.file_sys_type@,
    {
        self.file_sys_type.as_slice()
    }

    /// The informational file-system-type string, when it is UTF-8.
    pub fn file_sys_type_str(&self) -> (r: Option<&str>)
        ensures
            r is Some <==> vstd::utf8::valid_utf8(self.file_sys_type@),
            r is Some ==> r->Some_0@ == vstd::utf8::decode_utf8(self.file_sys_type@),
    {
        crate::utils::bytes_as_str(self.file_sys_type.as_slice())
    }
}

impl ExtBpb32 {
    /// The 32-bit FAT size in sectors.
    pub fn fat_size_32(&self) -> (r: u32)
        ensures
            r == self.fat_size_32,
    {
        self.fat_size_32
    }

    /// The extension flags word.
    pub fn ext_flags(&self) -> (r: u16)
        ensures
            r == self.ext_flags,
    {
        self.ext_flags
    }

    /// The root directory's first cluster.
    pub fn root_cluster(&self) -> (r: u32)
        ensures
            r == self.root_cluster,
    {
        self.root_cluster
    }

    /// The FS-Info sector number.
    pub fn fs_info(&self) -> (r: u16)
        ensures
            r == self.fs_info,
    {
        self.fs_info
    }

    /// The backup boot sector number, 0 or 6.
    pub fn bk_boot_sector(&self) -> (r: u16)
        ensures
            r == self.bk_boot_sector,
    {
        self.bk_boot_sector
    }

    /// The BIOS drive number.
    pub fn drive_number(&self) -> (r: u8)
        ensures
            r == self.drive_number,
    {
        self.drive_number
    }

    /// The extended boot signature byte.
    pub fn boot_sig(&self) -> (r: u8)
        ensures
            r == self.boot_sig,
    {
        self.boot_sig
    }

    /// The volume serial number.
    pub fn volume_serial_number(&self) -> (r: u32)
        ensures
            r == self.volume_serial_number,
    {
        self.volume_serial_number
    }

    /// The volume label bytes.
    pub fn volume_label(&self) -> (r: &[u8])
        ensures
            r@ == self.volume_label@,
    {
        self.volume_label.as_slice()
    }

    /// The volume label as text, when it is UTF-8.
    pub fn volume_label_str(&self) -> (r: Option<&str>)
        ensures
            r is Some <==> vstd::utf8::valid_utf8(self.volume_label@),
            r is Some ==> r->Some_0@ == vstd::utf8::decode_utf8(self.volume_label@),
    {
        crate::utils::bytes_as_str(self.volume_label.as_slice())
    }
}

/// Law: on every well-formed BPB the first data sector is the sum of the
/// reserved sectors, the FAT copies and the root directory sectors, and the
/// data offset is the first data sector scaled by the sector size.
pub proof fn lemma_derived_geometry(bpb: Bpb)
    requires
        bpb.wf(),
    ensures
        bpb.spec_first_data_sector() == bpb.reserved_sector_count + bpb.num_fats
            * bpb.spec_fat_size() + bpb.spec_root_dir_sectors(),
        bpb.spec_data_offset() == bpb.spec_first_data_sector() * bpb.bytes_per_sector,
{
}

/// Law: on every well-formed BPB the variant is FAT12 exactly when the
/// count of clusters is below 4085, FAT16 exactly when it is at least 4085
/// and below 65525, and FAT32 exactly when it is at least 65525.
pub proof fn lemma_variant_classification(bpb: Bpb)
    requires
        bpb.wf(),
    ensures
        (bpb.fat_type == FatType::Fat12) <==> bpb.spec_count_of_clusters() < 4085,
        (bpb.fat_type == FatType::Fat16) <==> (4085 <= bpb.spec_count_of_clusters() < 65525),
        (bpb.fat_type == FatType::Fat32) <==> bpb.spec_count_of_clusters() >= 65525,
{
}

} // verus!
