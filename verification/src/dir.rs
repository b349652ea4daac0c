//! Directory entries: 32-byte slots, long-name fragments, and the iterator
//! that folds fragment runs into logical entries.

use vstd::prelude::*;

use crate::datetime::{Date, Time};
use crate::utils::{load_u16_le, load_u32_le, u16_le, u32_le};

verus! {

broadcast use vstd::slice::axiom_spec_len;

/// Why a directory slot or long-name run was rejected.  All of these are
/// recoverable: the iterator resets its long-name state and continues with
/// the next slot.
#[derive(Debug, Clone, Copy, PartialEq, Eq, Structural)]
pub enum DirError {
    /// The creation-time tenths byte exceeds 199.
    InvalidCreateTenths,
    /// A packed date carries a month above 12.
    InvalidDate,
    /// A volume-label entry carries a nonzero first cluster.
    VolumeIdWithCluster,
    /// A directory entry carries a nonzero file size.
    DirectoryWithSize,
    /// The slot is not a long-name fragment.
    NotLongName,
    /// A long-name fragment carries a nonzero type byte.
    BadLongType,
    /// A long-name fragment carries a nonzero first-cluster field.
    BadLongCluster,
    /// A fragment run claims more than 20 fragments.
    TooManyFragments,
    /// A last fragment carries no characters, or lacks its terminator
    /// while not filling all 13 slots.
    BadFragment,
    /// A fragment arrived with no run in progress.
    NoRunInProgress,
    /// A fragment's checksum differs from the run's.
    ChecksumMismatch,
    /// A fragment's ordinal does not continue the run downward to 1.
    BadOrdinal,
    /// The assembled name would exceed 255 code units.
    NameTooLong,
    /// The entry records no usable on-disk position for write-back.
    NoDiskPosition,
}

/// File attribute bits of a directory entry.
#[derive(Debug, Clone, Copy, PartialEq, Eq, Structural)]
pub struct Attr {
    pub bits: u8,
}

impl Attr {
    /// Keeps the six defined attribute bits of a raw byte.
    pub fn from_bits_truncate(bits: u8) -> (r: Attr)
        ensures
            r.bits == bits & 0x3F,
    {
        Attr { bits: bits & 0x3F }
    }

    /// The raw bits.
    pub fn bits(&self) -> (r: u8)
        ensures
            r == self.bits,
    {
        self.bits
    }

    /// The read-only bit.
    pub open spec fn spec_read_only(self) -> bool {
        self.bits & 0x01 != 0
    }

    /// The hidden bit.
    pub open spec fn spec_hidden(self) -> bool {
        self.bits & 0x02 != 0
    }

    /// The system bit.
    pub open spec fn spec_system(self) -> bool {
        self.bits & 0x04 != 0
    }

    /// The volume-label bit.
    pub open spec fn spec_volume_id(self) -> bool {
        self.bits & 0x08 != 0
    }

    /// The directory bit.
    pub open spec fn spec_directory(self) -> bool {
        self.bits & 0x10 != 0
    }

    /// The archive bit.
    pub open spec fn spec_archive(self) -> bool {
        self.bits & 0x20 != 0
    }

    /// The read-only bit.
    pub fn read_only(&self) -> (r: bool)
        ensures
            r == self.spec_read_only(),
    {
        self.bits & 0x01 != 0
    }

    /// The hidden bit.
    pub fn hidden(&self) -> (r: bool)
        ensures
            r == self.spec_hidden(),
    {
        self.bits & 0x02 != 0
    }

    /// The system bit.
    pub fn system(&self) -> (r: bool)
        ensures
            r == self.spec_system(),
    {
        self.bits & 0x04 != 0
    }

    /// The volume-label bit.
    pub fn volume_id(&self) -> (r: bool)
        ensures
            r == self.spec_volume_id(),
    {
        self.bits & 0x08 != 0
    }

    /// The directory bit.
    pub fn directory(&self) -> (r: bool)
        ensures
            r == self.spec_directory(),
    {
        self.bits & 0x10 != 0
    }

    /// The archive bit.
    pub fn archive(&self) -> (r: bool)
        ensures
            r == self.spec_archive(),
    {
        self.bits & 0x20 != 0
    }
}

/// True when a slot's attribute byte marks a long-name fragment: the four
/// low attribute bits all set, the directory and archive bits clear.
pub open spec fn spec_is_long_name_byte(b: u8) -> bool {
    b & 0x3F == 0x0F
}

/// The 8-bit rotate-right-then-add checksum over the first `i` bytes of an
/// 8.3 name.
pub open spec fn spec_checksum_rec(name: Seq<u8>, i: int) -> u8
    decreases i,
{
    if i <= 0 {
        0
    } else {
        let prev = spec_checksum_rec(name, i - 1);
        let rotated = prev / 2 + 128 * (prev % 2);
        ((rotated + name[i - 1]) % 256) as u8
    }
}

/// The checksum carried by every long-name fragment of a logical entry:
/// rotate right one bit, then add, over the 11 bytes of the 8.3 name.
pub open spec fn spec_checksum_83(name: Seq<u8>) -> u8 {
    spec_checksum_rec(name, name.len() as int)
}

/// Computes the 8.3 name checksum.
pub fn checksum_83(name: &[u8]) -> (r: u8)
    ensures
        r == spec_checksum_83(name@),
{
    let n: usize = name.len();
    let mut checksum: u8 = 0;
    let mut i: usize = 0;
    while i < n
        invariant
            i <= n == name@.len(),
            checksum == spec_checksum_rec(name@, i as int),
        decreases n - i,
    {
        let rotated: u8 = checksum / 2 + 128 * (checksum % 2);
        checksum = rotated.wrapping_add(name[i]);
        i += 1;
    }
    checksum
}

/// A byte sequence with its trailing ASCII spaces removed.
pub open spec fn trim_spaces(s: Seq<u8>) -> Seq<u8>
    decreases s.len(),
{
    if s.len() > 0 && s.last() == 0x20 {
        trim_spaces(s.drop_last())
    } else {
        s
    }
}

/// Trimming removes exactly the trailing run of spaces.
proof fn lemma_trim_spaces(s: Seq<u8>, k: int)
    requires
        0 <= k <= s.len(),
        forall|j: int| k <= j < s.len() ==> s[j] == 0x20,
        k == 0 || s[k - 1] != 0x20,
    ensures
        trim_spaces(s) == s.take(k),
    decreases s.len(),
{
    if s.len() == k {
        assert(s.take(k) =~= s);
    } else {
        assert(s.last() == 0x20);
        lemma_trim_spaces(s.drop_last(), k);
        assert(s.drop_last().take(k) =~= s.take(k));
    }
}

/// Whether an 8.3 name byte may appear in a displayed name: capital
/// letters, digits, and the permitted symbols.
pub open spec fn spec_is_valid_83(c: u8) -> bool {
    ||| 0x30 <= c <= 0x39
    ||| 0x41 <= c <= 0x5A
    ||| c == 0x24
    ||| c == 0x25
    ||| c == 0x27
    ||| c == 0x2D
    ||| c == 0x5F
    ||| c == 0x40
    ||| c == 0x7E
    ||| c == 0x60
    ||| c == 0x21
    ||| c == 0x28
    ||| c == 0x29
    ||| c == 0x7B
    ||| c == 0x7D
    ||| c == 0x5E
    ||| c == 0x23
    ||| c == 0x26
}

/// An 8.3 name byte as displayed: kept when permitted, else a question
/// mark.
pub open spec fn spec_map_83(c: u8) -> u8 {
    if spec_is_valid_83(c) {
        c
    } else {
        0x3F
    }
}

/// Maps one 8.3 name byte for display.
fn map_83(c: u8) -> (r: u8)
    ensures
        r == spec_map_83(c),
{
    if (0x30 <= c && c <= 0x39) || (0x41 <= c && c <= 0x5A) || c == 0x24 || c == 0x25 || c == 0x27
        || c == 0x2D || c == 0x5F || c == 0x40 || c == 0x7E || c == 0x60 || c == 0x21 || c == 0x28
        || c == 0x29 || c == 0x7B || c == 0x7D || c == 0x5E || c == 0x23 || c == 0x26 {
        c
    } else {
        0x3F
    }
}

/// The stem field of an 8.3 name, with the Kanji escape recognized: a
/// leading 0x05 stands for a real first byte of 0xE5.
pub open spec fn spec_stem_field(name: Seq<u8>) -> Seq<u8> {
    if name[0] == 0x05 {
        name.subrange(0, 8).update(0, 0xE5u8)
    } else {
        name.subrange(0, 8)
    }
}

/// The displayed name bytes of an 11-byte 8.3 name field: a leading dot
/// when `dot_prefix` holds (a hidden entry that is not a volume label),
/// the trimmed and mapped stem with the Kanji escape recognized, and the
/// trimmed and mapped extension joined by a dot when it is not empty.
pub open spec fn spec_name_bytes(name: Seq<u8>, dot_prefix: bool) -> Seq<u8> {
    let stem = trim_spaces(spec_stem_field(name)).map_values(|c: u8| spec_map_83(c));
    let ext = trim_spaces(name.subrange(8, 11)).map_values(|c: u8| spec_map_83(c));
    (if dot_prefix {
        seq![0x2Eu8]
    } else {
        Seq::empty()
    }) + stem + (if ext.len() == 0 {
        Seq::empty()
    } else {
        seq![0x2Eu8] + ext
    })
}

/// Finds the length of `bytes[start..end]` once trailing spaces go.
fn trimmed_len(bytes: &Vec<u8>, start: usize, end: usize) -> (r: usize)
    requires
        start <= end <= bytes@.len(),
    ensures
        start + r <= end,
        trim_spaces(bytes@.subrange(start as int, end as int)) == bytes@.subrange(
            start as int,
            start + r,
        ),
        forall|j: int| start + r <= j < end ==> bytes@[j] == 0x20,
        r > 0 ==> bytes@[start + r - 1] != 0x20,
{
    let mut e: usize = end;
    while e > start && bytes[e - 1] == 0x20
        invariant
            start <= e <= end <= bytes@.len(),
            forall|j: int| e <= j < end ==> bytes@[j] == 0x20,
        decreases e,
    {
        e -= 1;
    }
    proof {
        let s = bytes@.subrange(start as int, end as int);
        lemma_trim_spaces(s, e - start);
        assert(s.take(e - start) =~= bytes@.subrange(start as int, e as int));
    }
    e - start
}

/// A decoded short directory entry: the raw 8.3 name, the attributes, the
/// packed timestamps, the first cluster and the size, and the long name a
/// fragment run may have attached.
#[derive(Debug, Clone)]
pub struct RegularDirEntry {
    pub name: Vec<u8>,
    pub attr: Attr,
    pub create_time_tenths: u8,
    pub create_time: Time,
    pub create_date: Date,
    pub last_access_date: Date,
    pub first_cluster: u32,
    pub write_time: Time,
    pub write_date: Date,
    pub file_size: u32,
    pub long_name: Option<String>,
    pub disk_offset: Option<u64>,
    pub lfn_offsets: Vec<u64>,
}

impl RegularDirEntry {
    /// The first validation of a 32-byte slot that fails, if any.
    pub open spec fn spec_load_err(b: Seq<u8>) -> Option<DirError> {
        if b[13] > 199 {
            Some(DirError::InvalidCreateTenths)
        } else if Date::spec_month(u16_le(b.subrange(16, 18)) as u16) > 12 {
            Some(DirError::InvalidDate)
        } else if Date::spec_month(u16_le(b.subrange(18, 20)) as u16) > 12 {
            Some(DirError::InvalidDate)
        } else if Date::spec_month(u16_le(b.subrange(24, 26)) as u16) > 12 {
            Some(DirError::InvalidDate)
        } else if (b[11] & 0x08 != 0) && (u16_le(b.subrange(26, 28)) != 0 || u16_le(
            b.subrange(20, 22),
        ) != 0) {
            Some(DirError::VolumeIdWithCluster)
        } else if (b[11] & 0x10 != 0) && u32_le(b.subrange(28, 32)) != 0 {
            Some(DirError::DirectoryWithSize)
        } else {
            None
        }
    }

    /// Decodes and validates a 32-byte short-entry slot.  Succeeds exactly
    /// when the creation tenths stay under 200, the three dates carry
    /// months of at most 12, a volume label has first cluster 0, and a
    /// directory has size 0; the fields then hold what the slot's bytes
    /// say and no long name is attached yet.
    pub fn load(bytes: &[u8]) -> (r: Result<RegularDirEntry, DirError>)
        requires
            bytes@.len() == 32,
        ensures
            r is Ok <==> RegularDirEntry::spec_load_err(bytes@) is None,
            r is Err ==> Some(r->Err_0) == RegularDirEntry::spec_load_err(bytes@),
            r is Ok ==> ({
                let e = r->Ok_0;
                &&& e.name@ == bytes@.subrange(0, 11)
                &&& e.attr.bits == bytes@[11] & 0x3F
                &&& e.create_time_tenths == bytes@[13]
                &&& e.create_time.repr as int == u16_le(bytes@.subrange(14, 16))
                &&& e.create_date.repr as int == u16_le(bytes@.subrange(16, 18))
                &&& e.last_access_date.repr as int == u16_le(bytes@.subrange(18, 20))
                &&& e.first_cluster as int == u16_le(bytes@.subrange(26, 28)) + 0x1_0000 * u16_le(
                    bytes@.subrange(20, 22),
                )
                &&& e.write_time.repr as int == u16_le(bytes@.subrange(22, 24))
                &&& e.write_date.repr as int == u16_le(bytes@.subrange(24, 26))
                &&& e.file_size as int == u32_le(bytes@.subrange(28, 32))
                &&& e.long_name is None
                &&& e.disk_offset is None
                &&& e.lfn_offsets@.len() == 0
            }),
    {
        let attr = Attr::from_bits_truncate(bytes[11]);

        let create_time_tenths = bytes[13];
        if create_time_tenths > 199 {
            return Err(DirError::InvalidCreateTenths);
        }

        let create_time = match Time::new(load_u16_le(&bytes[14..16])) {
            Ok(t) => t,
            Err(_) => {
                return Err(DirError::InvalidDate);
            },
        };
        let create_date = match Date::new(load_u16_le(&bytes[16..18])) {
            Ok(d) => d,
            Err(_) => {
                return Err(DirError::InvalidDate);
            },
        };
        let last_access_date = match Date::new(load_u16_le(&bytes[18..20])) {
            Ok(d) => d,
            Err(_) => {
                return Err(DirError::InvalidDate);
            },
        };
        let write_time = match Time::new(load_u16_le(&bytes[22..24])) {
            Ok(t) => t,
            Err(_) => {
                return Err(DirError::InvalidDate);
            },
        };
        let write_date = match Date::new(load_u16_le(&bytes[24..26])) {
            Ok(d) => d,
            Err(_) => {
                return Err(DirError::InvalidDate);
            },
        };

        let file_size = load_u32_le(&bytes[28..32]);

        let first_cluster_hi = load_u16_le(&bytes[20..22]);
        let first_cluster_lo = load_u16_le(&bytes[26..28]);

        let first_cluster: u32 = first_cluster_lo as u32 + 0x1_0000 * (first_cluster_hi as u32);

        proof {
            let a = bytes@[11];
            assert(((a & 0x3F) & 0x08) == (a & 0x08) && ((a & 0x3F) & 0x10) == (a & 0x10))
                by (bit_vector);
        }

        if attr.volume_id() && first_cluster != 0 {
            return Err(DirError::VolumeIdWithCluster);
        }

        if attr.directory() && file_size != 0 {
            return Err(DirError::DirectoryWithSize);
        }

        let name = vstd::slice::slice_to_vec(&bytes[0..11]);

        Ok(
            RegularDirEntry {
                name,
                attr,
                create_time_tenths,
                create_time,
                create_date,
                last_access_date,
                first_cluster,
                write_time,
                write_date,
                file_size,
                long_name: None,
                disk_offset: None,
                lfn_offsets: Vec::new(),
            },
        )
    }

    /// True when the slot is deleted (0xE5) or the end sentinel (0x00).
    pub fn is_empty(&self) -> (r: bool)
        requires
            self.name@.len() == 11,
        ensures
            r == (self.name@[0] == 0xE5 || self.name@[0] == 0x00),
    {
        self.name[0] == 0xE5 || self.name[0] == 0x00
    }

    /// True when the slot is the end sentinel: every later slot is unused.
    pub fn is_sentinel(&self) -> (r: bool)
        requires
            self.name@.len() == 11,
        ensures
            r == (self.name@[0] == 0x00),
    {
        self.name[0] == 0x00
    }

    /// A file carries none of the directory, system and volume-label bits.
    pub fn is_file(&self) -> (r: bool)
        ensures
            r == (!self.attr.spec_directory() && !self.attr.spec_system()
                && !self.attr.spec_volume_id()),
    {
        !(self.attr.directory() || self.attr.system() || self.attr.volume_id())
    }

    /// A directory carries the directory bit and neither the system nor
    /// the volume-label bit.
    pub fn is_dir(&self) -> (r: bool)
        ensures
            r == (self.attr.spec_directory() && !self.attr.spec_system()
                && !self.attr.spec_volume_id()),
    {
        self.attr.directory() && !(self.attr.system() || self.attr.volume_id())
    }

    /// The name is a dot followed by spaces.
    pub open spec fn spec_is_dot_name(name: Seq<u8>) -> bool {
        name[0] == 0x2E && forall|j: int| 1 <= j < 11 ==> name[j] == 0x20
    }

    /// The name is two dots followed by spaces.
    pub open spec fn spec_is_dotdot_name(name: Seq<u8>) -> bool {
        name[0] == 0x2E && name[1] == 0x2E && forall|j: int| 2 <= j < 11 ==> name[j] == 0x20
    }

    /// True for the `.` entry: a directory whose name is one dot padded
    /// with spaces.
    pub fn is_dot(&self) -> (r: bool)
        requires
            self.name@.len() == 11,
        ensures
            r == (self.attr.spec_directory() && !self.attr.spec_system()
                && !self.attr.spec_volume_id() && RegularDirEntry::spec_is_dot_name(self.name@)),
    {
        if !self.is_dir() {
            return false;
        }

        if self.name[0] != 0x2E {
            return false;
        }

        let mut j: usize = 1;
        while j < 11
            invariant
                1 <= j <= 11,
                self.name@.len() == 11,
                forall|t: int| 1 <= t < j ==> self.name@[t] == 0x20,
            decreases 11 - j,
        {
            if self.name[j] != 0x20 {
                return false;
            }
            j += 1;
        }

        true
    }

    /// True for the `..` entry: a directory whose name is two dots padded
    /// with spaces.
    pub fn is_dotdot(&self) -> (r: bool)
        requires
            self.name@.len() == 11,
        ensures
            r == (self.attr.spec_directory() && !self.attr.spec_system()
                && !self.attr.spec_volume_id() && RegularDirEntry::spec_is_dotdot_name(
                self.name@,
            )),
    {
        if !self.is_dir() {
            return false;
        }

        if self.name[0] != 0x2E || self.name[1] != 0x2E {
            return false;
        }

        let mut j: usize = 2;
        while j < 11
            invariant
                2 <= j <= 11,
                self.name@.len() == 11,
                forall|t: int| 2 <= t < j ==> self.name@[t] == 0x20,
            decreases 11 - j,
        {
            if self.name[j] != 0x20 {
                return false;
            }
            j += 1;
        }

        true
    }

    /// Hidden in a listing: the dot entries and everything with the hidden
    /// bit.
    pub fn is_hidden(&self) -> (r: bool)
        requires
            self.name@.len() == 11,
        ensures
            r == ((self.attr.spec_directory() && !self.attr.spec_system()
                && !self.attr.spec_volume_id() && (RegularDirEntry::spec_is_dot_name(self.name@)
                || RegularDirEntry::spec_is_dotdot_name(self.name@)))
                || self.attr.spec_hidden()),
    {
        self.is_dot() || self.is_dotdot() || self.attr.hidden()
    }

    /// The read-only bit.
    pub fn is_readonly(&self) -> (r: bool)
        ensures
            r == self.attr.spec_read_only(),
    {
        self.attr.read_only()
    }

    /// The raw 11-byte 8.3 name field.
    pub fn name(&self) -> (r: &[u8])
        ensures
            r@ == self.name@,
    {
        self.name.as_slice()
    }

    /// The 8-byte stem of the 8.3 name.
    pub fn stem(&self) -> (r: &[u8])
        requires
            self.name@.len() == 11,
        ensures
            r@ == self.name@.subrange(0, 8),
    {
        &self.name.as_slice()[0..8]
    }

    /// The stem as text, when it is UTF-8.
    pub fn stem_str(&self) -> (r: Option<&str>)
        requires
            self.name@.len() == 11,
        ensures
            r is Some <==> vstd::utf8::valid_utf8(self.name@.subrange(0, 8)),
            r is Some ==> r->Some_0@ == vstd::utf8::decode_utf8(self.name@.subrange(0, 8)),
    {
        crate::utils::bytes_as_str(self.stem())
    }

    /// The 3-byte extension of the 8.3 name.
    pub fn extension(&self) -> (r: &[u8])
        requires
            self.name@.len() == 11,
        ensures
            r@ == self.name@.subrange(8, 11),
    {
        &self.name.as_slice()[8..11]
    }

    /// The extension as text, when it is UTF-8.
    pub fn extension_str(&self) -> (r: Option<&str>)
        requires
            self.name@.len() == 11,
        ensures
            r is Some <==> vstd::utf8::valid_utf8(self.name@.subrange(8, 11)),
            r is Some ==> r->Some_0@ == vstd::utf8::decode_utf8(self.name@.subrange(8, 11)),
    {
        crate::utils::bytes_as_str(self.extension())
    }

    /// The displayed name: the attached long name when one is present,
    /// else the 8.3 name trimmed, cleaned of impermissible bytes, joined
    /// by a dot, with the Kanji escape recognized, and prefixed by a dot
    /// when the entry is hidden and not a volume label.
    pub fn name_string(&self) -> (r: String)
        requires
            self.name@.len() == 11,
        ensures
            self.long_name is Some ==> r@ == self.long_name->0@,
            self.long_name is None ==> r@ == spec_name_bytes(
                self.name@,
                self.attr.spec_hidden() && !self.attr.spec_volume_id(),
            ).map_values(|b: u8| b as char),
    {
        if let Some(long_name) = &self.long_name {
            return long_name.clone();
        }

        let ghost stem_field = spec_stem_field(self.name@);
        let ghost stem_spec = trim_spaces(stem_field).map_values(|c: u8| spec_map_83(c));
        let ghost ext_spec = trim_spaces(self.name@.subrange(8, 11)).map_values(
            |c: u8| spec_map_83(c),
        );

        let mut out: Vec<u8> = Vec::new();

        if self.attr.hidden() && !self.attr.volume_id() {
            out.push(0x2E);
        }

        let ghost lead = out@;

        let stem_len = trimmed_len(&self.name, 0, 8);

        proof {
            // the escape substitution touches only the first byte, which is
            // never a space here, so the trimmed length carries over
            if self.name@[0] == 0x05 {
                assert(stem_len >= 1);
                assert forall|j: int| stem_len <= j < 8 implies stem_field[j] == 0x20 by {
                    assert(stem_field[j] == self.name@[j]);
                }
                lemma_trim_spaces(stem_field, stem_len as int);
            } else {
                assert(stem_field =~= self.name@.subrange(0, 8));
            }
            assert(stem_field.take(stem_len as int) =~= trim_spaces(stem_field));
        }

        let mut i: usize = 0;
        while i < stem_len
            invariant
                i <= stem_len <= 8,
                self.name@.len() == 11,
                stem_field == spec_stem_field(self.name@),
                trim_spaces(stem_field) == stem_field.take(stem_len as int),
                stem_spec == trim_spaces(stem_field).map_values(|c: u8| spec_map_83(c)),
                out@ == lead + stem_spec.take(i as int),
            decreases stem_len - i,
        {
            let c: u8 = if i == 0 && self.name[0] == 0x05 {
                0xE5
            } else {
                self.name[i]
            };
            proof {
                assert(c == stem_field[i as int]);
            }
            out.push(map_83(c));
            proof {
                assert(out@ =~= lead + stem_spec.take(i + 1));
            }
            i += 1;
        }

        proof {
            assert(stem_spec.take(stem_len as int) =~= stem_spec);
        }

        let ghost with_stem = out@;

        let ext_len = trimmed_len(&self.name, 8, 11);
        if ext_len > 0 {
            out.push(0x2E);
            let ghost with_dot = out@;
            let mut j: usize = 0;
            while j < ext_len
                invariant
                    j <= ext_len <= 3,
                    self.name@.len() == 11,
                    trim_spaces(self.name@.subrange(8, 11)) == self.name@.subrange(
                        8,
                        8 + ext_len as int,
                    ),
                    ext_spec == trim_spaces(self.name@.subrange(8, 11)).map_values(
                        |c: u8| spec_map_83(c),
                    ),
                    with_dot == with_stem + seq![0x2Eu8],
                    out@ == with_dot + ext_spec.take(j as int),
                decreases ext_len - j,
            {
                out.push(map_83(self.name[8 + j]));
                proof {
                    assert(self.name@.subrange(8, 8 + ext_len as int)[j as int] == self.name@[8 + j]);
                    assert(out@ =~= with_dot + ext_spec.take(j + 1));
                }
                j += 1;
            }
            proof {
                assert(ext_spec.take(ext_len as int) =~= ext_spec);
            }
        }

        proof {
            let dot = self.attr.spec_hidden() && !self.attr.spec_volume_id();
            assert(out@ =~= spec_name_bytes(self.name@, dot));
            assert forall|t: int| 0 <= t < out@.len() implies out@[t] < 128 by {
                let sn = spec_name_bytes(self.name@, dot);
                assert(out@[t] == sn[t]);
            }
        }

        let r = crate::utils::ascii_to_string(out);
        proof {
            assert(r@ =~= spec_name_bytes(
                self.name@,
                self.attr.spec_hidden() && !self.attr.spec_volume_id(),
            ).map_values(|b: u8| b as char));
        }
        r
    }

    /// The attached long name, when a fragment run carried one.
    pub fn long_name(&self) -> (r: Option<&str>)
        ensures
            r is Some <==> self.long_name is Some,
            r is Some ==> r->Some_0@ == self.long_name->0@,
    {
        match &self.long_name {
            Some(s) => Some(s.as_str()),
            None => None,
        }
    }

    /// Attaches a long name.
    pub fn set_long_name(&mut self, long_name: String)
        ensures
            *final(self) == (RegularDirEntry { long_name: Some(long_name), ..*old(self) }),
    {
        self.long_name = Some(long_name);
    }

    /// The attributes.
    pub fn attr(&self) -> (r: Attr)
        ensures
            r == self.attr,
    {
        self.attr
    }

    /// The first cluster of the entry's data.
    pub fn first_cluster(&self) -> (r: u32)
        ensures
            r == self.first_cluster,
    {
        self.first_cluster
    }

    /// The file size in bytes; 0 for directories.
    pub fn file_size(&self) -> (r: u32)
        ensures
            r == self.file_size,
    {
        self.file_size
    }

    /// The creation time's tenths-of-second byte.
    pub fn create_time_tenths(&self) -> (r: u8)
        ensures
            r == self.create_time_tenths,
    {
        self.create_time_tenths
    }

    /// The packed creation time.
    pub fn create_time(&self) -> (r: Time)
        ensures
            r == self.create_time,
    {
        self.create_time
    }

    /// The packed creation date.
    pub fn create_date(&self) -> (r: Date)
        ensures
            r == self.create_date,
    {
        self.create_date
    }

    /// The packed date of last access.
    pub fn last_access_date(&self) -> (r: Date)
        ensures
            r == self.last_access_date,
    {
        self.last_access_date
    }

    /// The packed time of last write.
    pub fn write_time(&self) -> (r: Time)
        ensures
            r == self.write_time,
    {
        self.write_time
    }

    /// The packed date of last write.
    pub fn write_date(&self) -> (r: Date)
        ensures
            r == self.write_date,
    {
        self.write_date
    }

    /// Rewrites the entry's size field on disk and in this record.  The
    /// entry must have been emitted by the iterator, which records its
    /// slot's position; without one, or with one that leaves the image,
    /// nothing changes.
    pub fn update_size(&mut self, fs: &mut crate::FatFs, new_size: u32) -> (r: Result<
        (),
        DirError,
    >)
        requires
            old(fs).wf(),
        ensures
            final(fs).wf(),
            final(fs).spec_image().len() == old(fs).spec_image().len(),
            final(fs).bpb == old(fs).bpb,
            final(fs).fat == old(fs).fat,
            final(fs).free_count == old(fs).free_count,
            old(self).disk_offset is None ==> r == Err::<(), DirError>(DirError::NoDiskPosition)
                && *final(fs) == *old(fs) && *final(self) == *old(self),
            old(self).disk_offset is Some ==> ({
                let off = old(self).disk_offset->0 as int;
                if off + 32 <= old(fs).spec_image().len() {
                    &&& r is Ok
                    &&& final(fs).spec_image() == crate::slice_like::overwrite(
                        old(fs).spec_image(),
                        off + 28,
                        seq![
                            (new_size as int % 256) as u8,
                            (new_size as int / 0x100 % 256) as u8,
                            (new_size as int / 0x1_0000 % 256) as u8,
                            (new_size as int / 0x100_0000 % 256) as u8,
                        ],
                    )
                    &&& *final(self) == (RegularDirEntry { file_size: new_size, ..*old(self) })
                } else {
                    r == Err::<(), DirError>(DirError::NoDiskPosition) && *final(fs) == *old(fs)
                        && *final(self) == *old(self)
                }
            }),
    {
        let off = match self.disk_offset {
            Some(off) => off,
            None => {
                return Err(DirError::NoDiskPosition);
            },
        };

        let image_len = fs.inner.len();

        if off > image_len as u64 || image_len as u64 - off < 32 {
            return Err(DirError::NoDiskPosition);
        }

        let mut bytes: Vec<u8> = Vec::new();
        bytes.push((new_size % 256) as u8);
        bytes.push(((new_size / 0x100) % 256) as u8);
        bytes.push(((new_size / 0x1_0000) % 256) as u8);
        bytes.push(((new_size / 0x100_0000) % 256) as u8);

        let res = fs.inner.write_all_at(off + 28, bytes.as_slice());
        proof {
            assert(res is Ok);
            assert(bytes@ =~= seq![
                (new_size as int % 256) as u8,
                (new_size as int / 0x100 % 256) as u8,
                (new_size as int / 0x1_0000 % 256) as u8,
                (new_size as int / 0x100_0000 % 256) as u8,
            ]);
        }

        self.file_size = new_size;

        Ok(())
    }

    /// Erases the entry on disk: the first byte of its slot, and of every
    /// long-name fragment slot recorded with it, becomes the deleted
    /// marker 0xE5.  The entry must have been emitted by the iterator;
    /// without a recorded position, or with one that leaves the image,
    /// nothing changes.
    pub fn erase(&self, fs: &mut crate::FatFs) -> (r: Result<(), DirError>)
        requires
            old(fs).wf(),
        ensures
            final(fs).wf(),
            final(fs).spec_image().len() == old(fs).spec_image().len(),
            final(fs).bpb == old(fs).bpb,
            final(fs).fat == old(fs).fat,
            final(fs).free_count == old(fs).free_count,
            r is Err ==> *final(fs) == *old(fs),
            self.disk_offset is None ==> r == Err::<(), DirError>(DirError::NoDiskPosition),
            r is Ok ==> self.disk_offset is Some && forall|j: int|
                0 <= j < old(fs).spec_image().len() ==> final(fs).spec_image()[j] == (if j
                    == self.disk_offset->0 as int || (exists|k: int|
                    0 <= k < self.lfn_offsets@.len() && #[trigger] self.lfn_offsets@[k] as int
                        == j) {
                    0xE5u8
                } else {
                    old(fs).spec_image()[j]
                }),
    {
        let off0 = match self.disk_offset {
            Some(off) => off,
            None => {
                return Err(DirError::NoDiskPosition);
            },
        };

        let image_len = fs.inner.len();

        if off0 >= image_len as u64 {
            return Err(DirError::NoDiskPosition);
        }

        let n = self.lfn_offsets.len();
        let mut k: usize = 0;
        while k < n
            invariant
                k <= n == self.lfn_offsets@.len(),
                image_len == fs.spec_image().len(),
                *fs == *old(fs),
                old(fs).wf(),
                forall|t: int| 0 <= t < k ==> self.lfn_offsets@[t] < image_len,
            decreases n - k,
        {
            if self.lfn_offsets[k] >= image_len as u64 {
                return Err(DirError::NoDiskPosition);
            }
            k += 1;
        }

        let mut marker: Vec<u8> = Vec::new();
        marker.push(0xE5);

        let res = fs.inner.write_all_at(off0, marker.as_slice());
        proof {
            assert(res is Ok);
            crate::slice_like::lemma_overwrite_index(old(fs).spec_image(), off0 as int, marker@);
        }

        let mut k: usize = 0;
        while k < n
            invariant
                k <= n == self.lfn_offsets@.len(),
                marker@ == seq![0xE5u8],
                image_len == fs.spec_image().len(),
                fs.spec_image().len() == old(fs).spec_image().len(),
                fs.bpb == old(fs).bpb,
                fs.fat == old(fs).fat,
                fs.free_count == old(fs).free_count,
                fs.next_free == old(fs).next_free,
                fs.fat_offset == old(fs).fat_offset,
                fs.fat_size == old(fs).fat_size,
                fs.root_dir_offset == old(fs).root_dir_offset,
                fs.root_dir_size == old(fs).root_dir_size,
                fs.data_offset == old(fs).data_offset,
                fs.data_size == old(fs).data_size,
                fs.bytes_per_cluster == old(fs).bytes_per_cluster,
                old(fs).wf(),
                fs.wf(),
                off0 < image_len,
                forall|t: int| 0 <= t < n ==> self.lfn_offsets@[t] < image_len,
                forall|j: int|
                    0 <= j < old(fs).spec_image().len() ==> fs.spec_image()[j] == (if j
                        == off0 as int || (exists|t: int|
                        0 <= t < k && #[trigger] self.lfn_offsets@[t] as int == j) {
                        0xE5u8
                    } else {
                        old(fs).spec_image()[j]
                    }),
            decreases n - k,
        {
            let ghost img_before = fs.spec_image();
            let res2 = fs.inner.write_all_at(self.lfn_offsets[k], marker.as_slice());
            proof {
                assert(res2 is Ok);
                crate::slice_like::lemma_overwrite_index(
                    img_before,
                    self.lfn_offsets@[k as int] as int,
                    marker@,
                );
                assert forall|j: int| 0 <= j < old(fs).spec_image().len() implies fs.spec_image()[j]
                    == (if j == off0 as int || (exists|t: int|
                    0 <= t < k + 1 && #[trigger] self.lfn_offsets@[t] as int == j) {
                    0xE5u8
                } else {
                    old(fs).spec_image()[j]
                }) by {
                    if j == self.lfn_offsets@[k as int] as int {
                        assert(self.lfn_offsets@[k as int] as int == j);
                    }
                }
            }
            k += 1;
        }

        Ok(())
    }

    /// The checksum of this entry's 8.3 name, which every long-name
    /// fragment of the entry must carry.
    pub fn checksum(&self) -> (r: u8)
        ensures
            r == spec_checksum_83(self.name@),
    {
        checksum_83(self.name.as_slice())
    }
}

/// Code unit `k` (0 to 12) of a long-name slot: the units sit at offsets
/// 1 to 10, 14 to 25 and 28 to 31, little-endian.
pub open spec fn spec_lfn_unit(b: Seq<u8>, k: int) -> int {
    if k < 5 {
        u16_le(b.subrange(1 + 2 * k, 3 + 2 * k))
    } else if k < 11 {
        u16_le(b.subrange(14 + 2 * (k - 5), 16 + 2 * (k - 5)))
    } else {
        u16_le(b.subrange(28 + 2 * (k - 11), 30 + 2 * (k - 11)))
    }
}

/// One long-name fragment: 13 UTF-16 code units, a 1-based ordinal, the
/// is-last flag, and the checksum of the paired 8.3 name.
#[derive(Debug, Clone)]
pub struct LongNameDirEntry {
    pub ordinal: u8,
    pub is_last: bool,
    pub name: Vec<u16>,
    pub checksum: u8,
}

impl LongNameDirEntry {
    /// The first validation of a long-name slot that fails, if any.
    pub open spec fn spec_load_err(b: Seq<u8>) -> Option<DirError> {
        if b[11] & 0x0F != 0x0F {
            Some(DirError::NotLongName)
        } else if b[12] != 0 {
            Some(DirError::BadLongType)
        } else if b[26] != 0 || b[27] != 0 {
            Some(DirError::BadLongCluster)
        } else {
            None
        }
    }

    /// Decodes and validates a 32-byte long-name slot.  Succeeds exactly
    /// when the attribute carries the long-name mask, the type byte is
    /// zero and the first-cluster field is zero; the fields then hold what
    /// the slot's bytes say.
    pub fn load(bytes: &[u8]) -> (r: Result<LongNameDirEntry, DirError>)
        requires
            bytes@.len() == 32,
        ensures
            r is Ok <==> LongNameDirEntry::spec_load_err(bytes@) is None,
            r is Err ==> Some(r->Err_0) == LongNameDirEntry::spec_load_err(bytes@),
            r is Ok ==> ({
                let e = r->Ok_0;
                &&& e.ordinal == bytes@[0] & 0xBF
                &&& e.is_last == (bytes@[0] & 0x40 != 0)
                &&& e.checksum == bytes@[13]
                &&& e.name@.len() == 13
                &&& forall|k: int| 0 <= k < 13 ==> e.name@[k] as int == spec_lfn_unit(bytes@, k)
            }),
    {
        let ordinal = bytes[0] & 0xBF;
        let is_last = (bytes[0] & 0x40) != 0;

        if bytes[11] & 0x0F != 0x0F {
            return Err(DirError::NotLongName);
        }

        if bytes[12] != 0 {
            return Err(DirError::BadLongType);
        }

        let checksum = bytes[13];

        if bytes[26] != 0 || bytes[27] != 0 {
            return Err(DirError::BadLongCluster);
        }

        let mut name: Vec<u16> = Vec::new();
        let mut k: usize = 0;
        while k < 5
            invariant
                k <= 5,
                bytes@.len() == 32,
                name@.len() == k,
                forall|t: int| 0 <= t < k ==> name@[t] as int == spec_lfn_unit(bytes@, t),
            decreases 5 - k,
        {
            name.push(load_u16_le(&bytes[1 + 2 * k..3 + 2 * k]));
            k += 1;
        }
        while k < 11
            invariant
                5 <= k <= 11,
                bytes@.len() == 32,
                name@.len() == k,
                forall|t: int| 0 <= t < k ==> name@[t] as int == spec_lfn_unit(bytes@, t),
            decreases 11 - k,
        {
            name.push(load_u16_le(&bytes[14 + 2 * (k - 5)..16 + 2 * (k - 5)]));
            k += 1;
        }
        while k < 13
            invariant
                11 <= k <= 13,
                bytes@.len() == 32,
                name@.len() == k,
                forall|t: int| 0 <= t < k ==> name@[t] as int == spec_lfn_unit(bytes@, t),
            decreases 13 - k,
        {
            name.push(load_u16_le(&bytes[28 + 2 * (k - 11)..30 + 2 * (k - 11)]));
            k += 1;
        }

        Ok(LongNameDirEntry { ordinal, is_last, name, checksum })
    }

    /// The 1-based position of this fragment in its run.
    pub fn ordinal(&self) -> (r: u8)
        ensures
            r == self.ordinal,
    {
        self.ordinal
    }

    /// True on the fragment with the highest ordinal, which arrives first.
    pub fn is_last(&self) -> (r: bool)
        ensures
            r == self.is_last,
    {
        self.is_last
    }

    /// True on the fragment that arrives first in the slot stream (the
    /// one carrying the is-last flag).
    pub fn is_first(&self) -> (r: bool)
        ensures
            r == self.is_last,
    {
        self.is_last
    }

    /// The 13 code units carried by this fragment.
    pub fn name(&self) -> (r: &[u16])
        ensures
            r@ == self.name@,
    {
        self.name.as_slice()
    }

    /// The checksum of the paired 8.3 name.
    pub fn checksum(&self) -> (r: u8)
        ensures
            r == self.checksum,
    {
        self.checksum
    }
}

/// A decoded 32-byte slot: a short entry or a long-name fragment, told
/// apart by the attribute byte.
#[derive(Debug, Clone)]
pub enum DirEntry {
    Regular(RegularDirEntry),
    LongName(LongNameDirEntry),
}

impl DirEntry {
    /// Decodes a 32-byte slot as a long-name fragment exactly when the
    /// attribute byte's six defined bits equal the long-name mask, else as
    /// a short entry.
    pub fn load(bytes: &[u8]) -> (r: Result<DirEntry, DirError>)
        requires
            bytes@.len() == 32,
        ensures
            spec_is_long_name_byte(bytes@[11]) ==> ({
                &&& (r is Ok <==> LongNameDirEntry::spec_load_err(bytes@) is None)
                &&& (r is Ok ==> r->Ok_0 is LongName)
                &&& (r is Err ==> Some(r->Err_0) == LongNameDirEntry::spec_load_err(bytes@))
            }),
            !spec_is_long_name_byte(bytes@[11]) ==> ({
                &&& (r is Ok <==> RegularDirEntry::spec_load_err(bytes@) is None)
                &&& (r is Ok ==> r->Ok_0 is Regular)
                &&& (r is Err ==> Some(r->Err_0) == RegularDirEntry::spec_load_err(bytes@))
            }),
            r is Ok ==> match r->Ok_0 {
                DirEntry::LongName(e) => {
                    &&& e.ordinal == bytes@[0] & 0xBF
                    &&& e.is_last == (bytes@[0] & 0x40 != 0)
                    &&& e.checksum == bytes@[13]
                    &&& e.name@.len() == 13
                    &&& forall|k: int| 0 <= k < 13 ==> e.name@[k] as int == spec_lfn_unit(bytes@, k)
                },
                DirEntry::Regular(e) => {
                    &&& e.name@ == bytes@.subrange(0, 11)
                    &&& e.attr.bits == bytes@[11] & 0x3F
                    &&& e.first_cluster as int == u16_le(bytes@.subrange(26, 28)) + 0x1_0000
                        * u16_le(bytes@.subrange(20, 22))
                    &&& e.file_size as int == u32_le(bytes@.subrange(28, 32))
                    &&& e.long_name is None
                },
            },
    {
        let attr = Attr::from_bits_truncate(bytes[11]);

        if attr.bits() == 0x0F {
            match LongNameDirEntry::load(bytes) {
                Ok(e) => Ok(DirEntry::LongName(e)),
                Err(e) => Err(e),
            }
        } else {
            match RegularDirEntry::load(bytes) {
                Ok(e) => Ok(DirEntry::Regular(e)),
                Err(e) => Err(e),
            }
        }
    }
}

/// A code unit sequence with its trailing 0xFFFF padding removed.
pub open spec fn trim_ffff(s: Seq<u16>) -> Seq<u16>
    decreases s.len(),
{
    if s.len() > 0 && s.last() == 0xFFFF {
        trim_ffff(s.drop_last())
    } else {
        s
    }
}

/// Trimming removes exactly the trailing run of 0xFFFF padding.
proof fn lemma_trim_ffff(s: Seq<u16>, k: int)
    requires
        0 <= k <= s.len(),
        forall|j: int| k <= j < s.len() ==> s[j] == 0xFFFF,
        k == 0 || s[k - 1] != 0xFFFF,
    ensures
        trim_ffff(s) == s.take(k),
    decreases s.len(),
{
    if s.len() == k {
        assert(s.take(k) =~= s);
    } else {
        assert(s.last() == 0xFFFF);
        lemma_trim_ffff(s.drop_last(), k);
        assert(s.drop_last().take(k) =~= s.take(k));
    }
}

/// The usable code units of a last fragment: padding trimmed, one
/// terminator dropped when present; absent a terminator the fragment must
/// fill all 13 slots; an empty result is malformed.
pub open spec fn spec_lfn_content(name: Seq<u16>) -> Option<Seq<u16>> {
    let t = trim_ffff(name);
    if t.len() > 0 && t.last() == 0 {
        if t.len() == 1 {
            None
        } else {
            Some(t.drop_last())
        }
    } else if t.len() == 13 {
        Some(t)
    } else {
        None
    }
}

/// The reverse accumulator for a long-name fragment run.  Fragments
/// arrive highest ordinal first; each is prepended by appending its units
/// reversed, and one reversal at flush restores reading order.  The ghost
/// sequence records the checksum byte each accumulated fragment carried.
pub struct LongFilenameBuf {
    pub rev_buf: Vec<u16>,
    pub checksum: Option<u8>,
    pub last_ordinal: Option<u8>,
    pub frag_checksums: Ghost<Seq<u8>>,
}

impl LongFilenameBuf {
    /// The run state is consistent: the checksum and ordinal are present
    /// together, and every accumulated fragment carried the run's
    /// checksum.
    pub open spec fn wf_lfn(self) -> bool {
        &&& (self.checksum is Some <==> self.last_ordinal is Some)
        &&& (self.checksum is Some ==> forall|i: int|
            0 <= i < self.frag_checksums@.len() ==> self.frag_checksums@[i] == self.checksum->0)
        &&& (self.checksum is Some ==> self.frag_checksums@.len() >= 1)
    }

    /// An empty accumulator with no run in progress.
    pub fn new() -> (r: LongFilenameBuf)
        ensures
            r.rev_buf@.len() == 0,
            r.checksum is None,
            r.last_ordinal is None,
            r.frag_checksums@.len() == 0,
            r.wf_lfn(),
    {
        LongFilenameBuf {
            rev_buf: Vec::new(),
            checksum: None,
            last_ordinal: None,
            frag_checksums: Ghost(Seq::empty()),
        }
    }

    /// Drops any run in progress.
    pub fn reset(&mut self)
        ensures
            final(self).rev_buf@.len() == 0,
            final(self).checksum is None,
            final(self).last_ordinal is None,
            final(self).frag_checksums@.len() == 0,
            final(self).wf_lfn(),
    {
        self.rev_buf = Vec::new();
        self.checksum = None;
        self.last_ordinal = None;
        let ghost fc = Seq::empty();
        self.frag_checksums = Ghost(fc);
    }

    /// Accumulates one fragment.  A fragment with the is-last flag starts
    /// a fresh run; a later one must carry the run's checksum and the next
    /// ordinal downward.  On an error nothing changes; the caller resets
    /// the run.
    pub fn next(&mut self, dir_entry: LongNameDirEntry) -> (r: Result<(), DirError>)
        requires
            dir_entry.name@.len() == 13,
            old(self).wf_lfn(),
        ensures
            final(self).wf_lfn(),
            r is Err ==> *final(self) == *old(self),
            dir_entry.is_last ==> ({
                if dir_entry.ordinal > 20 {
                    r == Err::<(), DirError>(DirError::TooManyFragments)
                } else if spec_lfn_content(dir_entry.name@) is None {
                    r == Err::<(), DirError>(DirError::BadFragment)
                } else {
                    &&& r is Ok
                    &&& final(self).rev_buf@ == spec_lfn_content(dir_entry.name@)->0.reverse()
                    &&& final(self).checksum == Some(dir_entry.checksum)
                    &&& final(self).last_ordinal == Some(dir_entry.ordinal)
                    &&& final(self).frag_checksums@ == seq![dir_entry.checksum]
                }
            }),
            !dir_entry.is_last ==> ({
                if old(self).checksum is None {
                    r == Err::<(), DirError>(DirError::NoRunInProgress)
                } else if old(self).checksum != Some(dir_entry.checksum) {
                    r == Err::<(), DirError>(DirError::ChecksumMismatch)
                } else if old(self).last_ordinal == Some(1u8) || old(self).last_ordinal->0 - 1
                    != dir_entry.ordinal {
                    r == Err::<(), DirError>(DirError::BadOrdinal)
                } else {
                    &&& r is Ok
                    &&& final(self).rev_buf@ == old(self).rev_buf@ + dir_entry.name@.reverse()
                    &&& final(self).checksum == old(self).checksum
                    &&& final(self).last_ordinal == Some(dir_entry.ordinal)
                    &&& final(self).frag_checksums@ == old(self).frag_checksums@.push(
                        dir_entry.checksum,
                    )
                }
            }),
    {
        if dir_entry.is_last {
            if dir_entry.ordinal > 20 {
                return Err(DirError::TooManyFragments);
            }

            let mut end: usize = 13;
            while end > 0 && dir_entry.name[end - 1] == 0xFFFF
                invariant
                    end <= 13,
                    dir_entry.name@.len() == 13,
                    forall|j: int| end <= j < 13 ==> dir_entry.name@[j] == 0xFFFF,
                decreases end,
            {
                end -= 1;
            }
            proof {
                lemma_trim_ffff(dir_entry.name@, end as int);
            }

            let content_end: usize = if end > 0 && dir_entry.name[end - 1] == 0 {
                end - 1
            } else {
                if end != 13 {
                    return Err(DirError::BadFragment);
                }
                end
            };

            if content_end == 0 {
                return Err(DirError::BadFragment);
            }

            proof {
                let t = trim_ffff(dir_entry.name@);
                assert(t == dir_entry.name@.take(end as int));
                if end > 0 && dir_entry.name@[end - 1] == 0 {
                    assert(t.drop_last() =~= dir_entry.name@.take(content_end as int));
                }
                assert(spec_lfn_content(dir_entry.name@) == Some(
                    dir_entry.name@.take(content_end as int),
                ));
            }

            let mut rev_buf: Vec<u16> = Vec::new();
            let mut i: usize = content_end;
            while i > 0
                invariant
                    i <= content_end <= 13,
                    dir_entry.name@.len() == 13,
                    rev_buf@.len() == content_end - i,
                    forall|t: int|
                        0 <= t < rev_buf@.len() ==> rev_buf@[t] == dir_entry.name@[content_end - 1
                            - t],
                decreases i,
            {
                rev_buf.push(dir_entry.name[i - 1]);
                i -= 1;
            }
            proof {
                assert(rev_buf@ =~= dir_entry.name@.take(content_end as int).reverse());
            }

            self.rev_buf = rev_buf;
            self.checksum = Some(dir_entry.checksum);
            self.last_ordinal = Some(dir_entry.ordinal);
            let ghost fc = seq![dir_entry.checksum];
            self.frag_checksums = Ghost(fc);

            return Ok(());
        }

        let run_checksum = match self.checksum {
            Some(c) => c,
            None => {
                return Err(DirError::NoRunInProgress);
            },
        };

        if run_checksum != dir_entry.checksum {
            return Err(DirError::ChecksumMismatch);
        }

        let last_ordinal = match self.last_ordinal {
            Some(o) => o,
            None => {
                return Err(DirError::NoRunInProgress);
            },
        };

        if last_ordinal <= 1 || last_ordinal - 1 != dir_entry.ordinal {
            return Err(DirError::BadOrdinal);
        }

        let ghost rev0 = self.rev_buf@;
        let mut i: usize = 13;
        while i > 0
            invariant
                i <= 13,
                dir_entry.name@.len() == 13,
                self.checksum == old(self).checksum,
                self.last_ordinal == old(self).last_ordinal,
                self.frag_checksums == old(self).frag_checksums,
                old(self).wf_lfn(),
                self.rev_buf@.len() == rev0.len() + 13 - i,
                forall|t: int| 0 <= t < rev0.len() ==> self.rev_buf@[t] == rev0[t],
                forall|t: int|
                    rev0.len() <= t < self.rev_buf@.len() ==> self.rev_buf@[t] == dir_entry.name@[
                        13 - 1 - (t - rev0.len())],
            decreases i,
        {
            self.rev_buf.push(dir_entry.name[i - 1]);
            i -= 1;
        }
        proof {
            assert(self.rev_buf@ =~= rev0 + dir_entry.name@.reverse());
        }

        self.last_ordinal = Some(dir_entry.ordinal);
        let ghost fc = self.frag_checksums@.push(dir_entry.checksum);
        self.frag_checksums = Ghost(fc);

        proof {
            assert forall|t: int| 0 <= t < self.frag_checksums@.len() implies self.frag_checksums@[t]
                == self.checksum->0 by {
                if t < self.frag_checksums@.len() - 1 {
                    assert(self.frag_checksums@[t] == old(self).frag_checksums@[t]);
                }
            }
        }

        Ok(())
    }

    /// Flushes the run for the short entry whose 8.3 checksum is given.
    /// With no run in progress there is nothing to attach; a run must have
    /// counted down to ordinal 1, carry the given checksum, and fit 255
    /// code units; the units then come back in reading order.  Every
    /// fragment of a run this returns carried exactly the given checksum.
    pub fn get_buf(&self, checksum: u8) -> (r: Result<Option<Vec<u16>>, DirError>)
        requires
            self.wf_lfn(),
        ensures
            self.checksum is None ==> r == Ok::<Option<Vec<u16>>, DirError>(None),
            self.checksum is Some ==> ({
                if self.last_ordinal != Some(1u8) {
                    r == Err::<Option<Vec<u16>>, DirError>(DirError::BadOrdinal)
                } else if self.checksum != Some(checksum) {
                    r == Err::<Option<Vec<u16>>, DirError>(DirError::ChecksumMismatch)
                } else if self.rev_buf@.len() > 255 {
                    r == Err::<Option<Vec<u16>>, DirError>(DirError::NameTooLong)
                } else {
                    &&& r is Ok
                    &&& r->Ok_0 is Some
                    &&& r->Ok_0->0@ == self.rev_buf@.reverse()
                    &&& forall|i: int|
                        0 <= i < self.frag_checksums@.len() ==> self.frag_checksums@[i] == checksum
                    &&& self.frag_checksums@.len() >= 1
                }
            }),
    {
        let run_checksum = match self.checksum {
            Some(c) => c,
            None => {
                return Ok(None);
            },
        };

        let last_ordinal = match self.last_ordinal {
            Some(o) => o,
            None => {
                return Err(DirError::BadOrdinal);
            },
        };

        if last_ordinal != 1 {
            return Err(DirError::BadOrdinal);
        }

        if run_checksum != checksum {
            return Err(DirError::ChecksumMismatch);
        }

        let n = self.rev_buf.len();

        if n > 255 {
            return Err(DirError::NameTooLong);
        }

        let mut out: Vec<u16> = Vec::new();
        let mut i: usize = n;
        while i > 0
            invariant
                i <= n == self.rev_buf@.len(),
                out@.len() == n - i,
                forall|t: int| 0 <= t < out@.len() ==> out@[t] == self.rev_buf@[n - 1 - t],
            decreases i,
        {
            out.push(self.rev_buf[i - 1]);
            i -= 1;
        }
        proof {
            assert(out@ =~= self.rev_buf@.reverse());
        }

        Ok(Some(out))
    }
}

/// Copies a vector of disk offsets.
fn clone_offsets(v: &Vec<u64>) -> (r: Vec<u64>)
    ensures
        r@ == v@,
{
    let n: usize = v.len();
    let mut out: Vec<u64> = Vec::new();
    let mut i: usize = 0;
    while i < n
        invariant
            i <= n == v@.len(),
            out@.len() == i,
            forall|t: int| 0 <= t < i ==> out@[t] == v@[t],
        decreases n - i,
    {
        out.push(v[i]);
        i += 1;
    }
    proof {
        assert(out@ =~= v@);
    }
    out
}

/// The abstract state of a long-name run: the reverse accumulator's code
/// units, and the run's checksum and expected ordinal.
#[verifier::ext_equal]
pub struct LfnAbs {
    pub units: Seq<u16>,
    pub checksum: Option<u8>,
    pub last_ordinal: Option<u8>,
}

/// A long-name run with nothing in progress.
pub open spec fn lfn_reset() -> LfnAbs {
    LfnAbs { units: Seq::empty(), checksum: None, last_ordinal: None }
}

/// The 13 code units carried by a long-name slot.
pub open spec fn spec_lfn_name(slot: Seq<u8>) -> Seq<u16> {
    Seq::new(13, |k: int| spec_lfn_unit(slot, k) as u16)
}

/// How one parseable long-name slot moves the run state: a last fragment
/// starts a fresh run from its usable units; a later fragment must carry
/// the run's checksum and the next ordinal downward, and appends its
/// units reversed; any protocol violation drops the run.
pub open spec fn spec_lfn_next(st: LfnAbs, slot: Seq<u8>) -> LfnAbs {
    let ordinal = slot[0] & 0xBF;
    let is_last = slot[0] & 0x40 != 0;
    let cks = slot[13];
    let name = spec_lfn_name(slot);
    if is_last {
        if ordinal > 20 {
            lfn_reset()
        } else {
            match spec_lfn_content(name) {
                None => lfn_reset(),
                Some(content) => LfnAbs {
                    units: content.reverse(),
                    checksum: Some(cks),
                    last_ordinal: Some(ordinal),
                },
            }
        }
    } else {
        if st.checksum is None {
            lfn_reset()
        } else if st.checksum != Some(cks) {
            lfn_reset()
        } else if st.last_ordinal == Some(1u8) || st.last_ordinal->0 - 1 != ordinal {
            lfn_reset()
        } else {
            LfnAbs {
                units: st.units + name.reverse(),
                checksum: st.checksum,
                last_ordinal: Some(ordinal),
            }
        }
    }
}

/// What a run hands to the short entry whose 8.3 checksum is `cks`: the
/// accumulated units in reading order, if the run counted down to 1,
/// carries that checksum, and fits 255 units; else nothing.
pub open spec fn spec_lfn_flush(st: LfnAbs, cks: u8) -> Option<Seq<u16>> {
    if st.checksum is None {
        None
    } else if st.last_ordinal != Some(1u8) {
        None
    } else if st.checksum != Some(cks) {
        None
    } else if st.units.len() > 255 {
        None
    } else {
        Some(st.units.reverse())
    }
}

/// The abstract state of the directory iterator: the stream's window
/// (offset and remaining length) and lookahead cluster, the long-name run,
/// and how many slots may still be consumed.
#[verifier::ext_equal]
pub struct ScanState {
    pub offset: int,
    pub len: int,
    pub next_cluster: Option<u32>,
    pub lfn: LfnAbs,
    pub slots_left: int,
}

/// What one call of the iterator yields: the end of iteration, or one
/// emitted slot with the long-name units its run attached; either carries
/// the iterator's state after the call.
#[verifier::ext_equal]
pub enum ScanStep {
    End { state: ScanState },
    Entry { slot: Seq<u8>, long: Option<Seq<u16>>, state: ScanState },
}

/// The directory scan: what one call of `DirIter::next` yields from a
/// given state, over the volume's image and FAT.  Slots are classified by
/// their first byte before anything else, as the on-disk format says: a
/// first byte 0x00 is the sentinel and ends iteration at that slot for
/// this and every later call; 0xE5
/// is a deleted slot and is skipped with the run kept; then a long-name
/// attribute byte marks a fragment, which moves the run (an unparseable
/// fragment drops it); an unparseable short slot drops the run and is
/// skipped; a parseable short slot is emitted, with whatever the run
/// flushes for its checksum.  A drained window re-homes to the lookahead
/// cluster; a stream end or a ragged tail ends iteration.
pub open spec fn spec_scan(fs: crate::FatFs, st: ScanState) -> ScanStep
    decreases st.slots_left,
{
    if st.slots_left <= 0 {
        ScanStep::End { state: st }
    } else if st.len == 0 && st.next_cluster is None {
        ScanStep::End { state: ScanState { slots_left: st.slots_left - 1, ..st } }
    } else if st.len != 0 && st.len < 32 {
        ScanStep::End {
            state: ScanState {
                offset: st.offset + st.len,
                len: 0,
                slots_left: st.slots_left - 1,
                ..st
            },
        }
    } else {
        let slot = if st.len >= 32 {
            fs.spec_image().subrange(st.offset, st.offset + 32)
        } else {
            fs.spec_image().subrange(
                fs.spec_cluster_offset(st.next_cluster->0 as int),
                fs.spec_cluster_offset(st.next_cluster->0 as int) + 32,
            )
        };
        let adv = if st.len >= 32 {
            ScanState {
                offset: st.offset + 32,
                len: st.len - 32,
                slots_left: st.slots_left - 1,
                ..st
            }
        } else {
            ScanState {
                offset: fs.spec_cluster_offset(st.next_cluster->0 as int) + 32,
                len: fs.bytes_per_cluster - 32,
                next_cluster: crate::iter::next_or_none(fs, st.next_cluster->0),
                slots_left: st.slots_left - 1,
                ..st
            }
        };
        if slot[0] == 0x00 {
            // the sentinel fuses the iterator: no later call reads a slot
            ScanStep::End { state: ScanState { slots_left: 0, ..adv } }
        } else if slot[0] == 0xE5 {
            spec_scan(fs, adv)
        } else if spec_is_long_name_byte(slot[11]) {
            if LongNameDirEntry::spec_load_err(slot) is Some {
                spec_scan(fs, ScanState { lfn: lfn_reset(), ..adv })
            } else {
                spec_scan(fs, ScanState { lfn: spec_lfn_next(st.lfn, slot), ..adv })
            }
        } else if RegularDirEntry::spec_load_err(slot) is Some {
            spec_scan(fs, ScanState { lfn: lfn_reset(), ..adv })
        } else {
            ScanStep::Entry {
                slot,
                long: spec_lfn_flush(st.lfn, spec_checksum_83(slot.subrange(0, 11))),
                state: ScanState { lfn: lfn_reset(), ..adv },
            }
        }
    }
}

/// Law: the sentinel ends iteration where it stands.  When the slot at
/// the scan's position begins with 0x00, the scan ends just past that
/// slot, whatever bytes follow it in the image.
pub proof fn lemma_scan_stops_at_sentinel(fs: crate::FatFs, st: ScanState)
    requires
        st.slots_left > 0,
        st.len >= 32,
        fs.spec_image().len() >= st.offset + 32 >= 32,
        fs.spec_image()[st.offset] == 0x00,
    ensures
        spec_scan(fs, st) == (ScanStep::End {
            state: ScanState {
                offset: st.offset + 32,
                len: st.len - 32,
                slots_left: 0,
                ..st
            },
        }),
{
    assert(fs.spec_image().subrange(st.offset, st.offset + 32)[0] == 0x00);
}

/// Law: a deleted slot is skipped and decides nothing.  When the slot at
/// the scan's position begins with 0xE5, the scan equals the scan from
/// just past it, with the long-name run kept.
pub proof fn lemma_scan_skips_deleted(fs: crate::FatFs, st: ScanState)
    requires
        st.slots_left > 0,
        st.len >= 32,
        fs.spec_image().len() >= st.offset + 32 >= 32,
        fs.spec_image()[st.offset] == 0xE5,
    ensures
        spec_scan(fs, st) == spec_scan(
            fs,
            ScanState {
                offset: st.offset + 32,
                len: st.len - 32,
                slots_left: st.slots_left - 1,
                ..st
            },
        ),
{
    assert(fs.spec_image().subrange(st.offset, st.offset + 32)[0] == 0xE5);
}

/// The directory iterator: consumes 32-byte slots from a cluster-chain
/// stream and emits logical entries, folding long-name fragment runs onto
/// the short entry that follows them.  Iteration ends at the first
/// sentinel slot (for good: later calls read nothing more), at the end of
/// the stream, or after the most slots any directory may hold.
pub struct DirIter {
    pub reader: crate::iter::ClusterChainReader,
    pub long_filename_buf: LongFilenameBuf,
    pub run_offsets: Vec<u64>,
    pub slots_left: u32,
    pub last_run_checksums: Ghost<Seq<u8>>,
    pub last_run_units: Ghost<Seq<u16>>,
}

impl DirIter {
    /// The iterator's stream and run state fit the volume.
    pub open spec fn wf(self, fs: crate::FatFs) -> bool {
        &&& self.reader.wf(fs)
        &&& self.long_filename_buf.wf_lfn()
    }

    /// The iterator's abstract state, which the scan model steps.
    pub open spec fn spec_state(self) -> ScanState {
        ScanState {
            offset: self.reader.sub_slice.offset as int,
            len: self.reader.sub_slice.len as int,
            next_cluster: self.reader.next_cluster,
            lfn: LfnAbs {
                units: self.long_filename_buf.rev_buf@,
                checksum: self.long_filename_buf.checksum,
                last_ordinal: self.long_filename_buf.last_ordinal,
            },
            slots_left: self.slots_left as int,
        }
    }

    /// An iterator over the slots the given stream yields.
    pub fn new(reader: crate::iter::ClusterChainReader) -> (r: DirIter)
        ensures
            r.reader == reader,
            r.long_filename_buf.checksum is None,
            r.long_filename_buf.wf_lfn(),
            r.slots_left == 0x10000,
            r.spec_state() == (ScanState {
                offset: reader.sub_slice.offset as int,
                len: reader.sub_slice.len as int,
                next_cluster: reader.next_cluster,
                lfn: lfn_reset(),
                slots_left: 0x10000,
            }),
    {
        let ghost g8: Seq<u8> = Seq::empty();
        let ghost g16: Seq<u16> = Seq::empty();
        let r = DirIter {
            reader,
            long_filename_buf: LongFilenameBuf::new(),
            run_offsets: Vec::new(),
            slots_left: 0x10000,
            last_run_checksums: Ghost(g8),
            last_run_units: Ghost(g16),
        };
        proof {
            assert(r.spec_state() =~= ScanState {
                offset: reader.sub_slice.offset as int,
                len: reader.sub_slice.len as int,
                next_cluster: reader.next_cluster,
                lfn: lfn_reset(),
                slots_left: 0x10000,
            });
        }
        r
    }

    /// The next logical entry, or `None` at the first sentinel slot or at
    /// the end of the stream.  The call performs exactly one step of the
    /// scan model `spec_scan` on the iterator's state: deleted slots are
    /// skipped, fragment runs are buffered (a malformed one is dropped and
    /// iteration continues), and the emitted entry is the first parseable
    /// short slot, carrying the name its run flushed.  An emitted entry
    /// records the image offsets of its slot and of its fragment slots for
    /// write-back.
    ///
    /// Law: when the emitted entry carries a long name, every fragment of
    /// the run that produced it carried the checksum of the entry's 8.3
    /// name, and the name is the UTF-16 decoding of the run's code units.
    #[verifier::rlimit(100)]
    pub fn next(&mut self, fs: &crate::FatFs) -> (r: Option<RegularDirEntry>)
        requires
            fs.wf(),
            old(self).wf(*fs),
        ensures
            final(self).wf(*fs),
            r is Some ==> r->Some_0.name@.len() == 11,
            r is Some && r->Some_0.long_name is Some ==> ({
                let e = r->Some_0;
                &&& final(self).last_run_checksums@.len() >= 1
                &&& forall|i: int|
                    0 <= i < final(self).last_run_checksums@.len() ==> final(self).last_run_checksums@[i] == spec_checksum_83(e.name@)
                &&& e.long_name->0@ == crate::utils::utf16_decode(final(self).last_run_units@)
            }),
            match spec_scan(*fs, old(self).spec_state()) {
                ScanStep::End { state } => r is None && final(self).spec_state() == state,
                ScanStep::Entry { slot, long, state } => {
                    &&& r is Some
                    &&& final(self).spec_state() == state
                    &&& ({
                        let e = r->Some_0;
                        &&& e.name@ == slot.subrange(0, 11)
                        &&& e.attr.bits == slot[11] & 0x3F
                        &&& e.create_time_tenths == slot[13]
                        &&& e.create_time.repr as int == u16_le(slot.subrange(14, 16))
                        &&& e.create_date.repr as int == u16_le(slot.subrange(16, 18))
                        &&& e.last_access_date.repr as int == u16_le(slot.subrange(18, 20))
                        &&& e.first_cluster as int == u16_le(slot.subrange(26, 28)) + 0x1_0000
                            * u16_le(slot.subrange(20, 22))
                        &&& e.write_time.repr as int == u16_le(slot.subrange(22, 24))
                        &&& e.write_date.repr as int == u16_le(slot.subrange(24, 26))
                        &&& e.file_size as int == u32_le(slot.subrange(28, 32))
                        &&& (e.long_name is Some <==> long is Some)
                        &&& (long is Some ==> e.long_name->0@ == crate::utils::utf16_decode(
                            long->0,
                        ))
                    })
                },
            },
    {
        #[verifier::loop_isolation(false)]
        loop
            invariant
                self.wf(*fs),
                spec_scan(*fs, old(self).spec_state()) == spec_scan(*fs, self.spec_state()),
            decreases self.slots_left,
        {
            let ghost pre = self.spec_state();

            if self.slots_left == 0 {
                proof {
                    assert(spec_scan(*fs, pre) == (ScanStep::End { state: pre }));
                }
                return None;
            }
            self.slots_left = self.slots_left - 1;

            let chunk = self.reader.read(fs, 32);

            if chunk.len() != 32 {
                proof {
                    if pre.len == 0 && pre.next_cluster is None {
                        assert(self.spec_state() =~= ScanState {
                            slots_left: pre.slots_left - 1,
                            ..pre
                        });
                    } else if pre.len != 0 && pre.len < 32 {
                        assert(self.spec_state() =~= ScanState {
                            offset: pre.offset + pre.len,
                            len: 0,
                            slots_left: pre.slots_left - 1,
                            ..pre
                        });
                    } else {
                        // a whole slot was available: the read returned it
                        assert(512 <= fs.bytes_per_cluster) by (nonlinear_arith)
                            requires
                                fs.bytes_per_cluster as int == fs.bpb.sectors_per_cluster as int
                                    * fs.bpb.bytes_per_sector as int,
                                fs.bpb.sectors_per_cluster >= 1,
                                fs.bpb.bytes_per_sector >= 512,
                        ;
                        assert(false);
                    }
                    assert(spec_scan(*fs, pre) == (ScanStep::End { state: self.spec_state() }));
                }
                return None;
            }

            proof {
                assert(512 <= fs.bytes_per_cluster) by (nonlinear_arith)
                    requires
                        fs.bytes_per_cluster as int == fs.bpb.sectors_per_cluster as int
                            * fs.bpb.bytes_per_sector as int,
                        fs.bpb.sectors_per_cluster >= 1,
                        fs.bpb.bytes_per_sector >= 512,
                ;
            }

            let ghost slot: Seq<u8> = chunk@;
            let ghost adv = ScanState {
                offset: self.reader.sub_slice.offset as int,
                len: self.reader.sub_slice.len as int,
                next_cluster: self.reader.next_cluster,
                lfn: pre.lfn,
                slots_left: pre.slots_left - 1,
            };

            proof {
                assert(self.spec_state() =~= adv);
                if pre.len >= 32 {
                    assert(slot == fs.spec_image().subrange(pre.offset, pre.offset + 32));
                } else {
                    assert(pre.len == 0 && pre.next_cluster is Some);
                }
            }

            let slot_end = self.reader.current_offset();

            let b0 = chunk[0];

            if b0 == 0x00 {
                // the sentinel, by its first byte alone: iteration ends here
                // for good; no later call reads past it
                self.slots_left = 0;
                proof {
                    assert(self.spec_state() =~= ScanState { slots_left: 0, ..adv });
                    assert(spec_scan(*fs, pre) == (ScanStep::End {
                        state: ScanState { slots_left: 0, ..adv },
                    }));
                }
                return None;
            }

            if b0 == 0xE5 {
                // a deleted slot: skipped, the run kept
                proof {
                    assert(spec_scan(*fs, pre) == spec_scan(*fs, adv));
                }
                continue;
            }

            if chunk[11] & 0x3F == 0x0F {
                match LongNameDirEntry::load(chunk.as_slice()) {
                    Ok(lfn_entry) => {
                        proof {
                            assert(lfn_entry.name@ =~= spec_lfn_name(slot));
                        }
                        let is_last = lfn_entry.is_last();
                        match self.long_filename_buf.next(lfn_entry) {
                            Ok(_) => {
                                if is_last {
                                    self.run_offsets = Vec::new();
                                }
                                if slot_end >= 32 {
                                    self.run_offsets.push(slot_end - 32);
                                }
                            },
                            Err(_) => {
                                self.long_filename_buf.reset();
                                self.run_offsets = Vec::new();
                            },
                        }
                        proof {
                            assert(self.spec_state() =~= ScanState {
                                lfn: spec_lfn_next(pre.lfn, slot),
                                ..adv
                            });
                            assert(spec_scan(*fs, pre) == spec_scan(*fs, self.spec_state()));
                        }
                    },
                    Err(_) => {
                        // an unparseable fragment drops the run
                        self.long_filename_buf.reset();
                        self.run_offsets = Vec::new();
                        proof {
                            assert(self.spec_state() =~= ScanState { lfn: lfn_reset(), ..adv });
                            assert(spec_scan(*fs, pre) == spec_scan(*fs, self.spec_state()));
                        }
                    },
                }
                continue;
            }

            let mut entry = match RegularDirEntry::load(chunk.as_slice()) {
                Ok(e) => e,
                Err(_) => {
                    // an unparseable short slot: drop the run, continue
                    self.long_filename_buf.reset();
                    self.run_offsets = Vec::new();
                    proof {
                        assert(self.spec_state() =~= ScanState { lfn: lfn_reset(), ..adv });
                        assert(spec_scan(*fs, pre) == spec_scan(*fs, self.spec_state()));
                    }
                    continue;
                },
            };

            let ghost flush = spec_lfn_flush(pre.lfn, spec_checksum_83(slot.subrange(0, 11)));

            let checksum = entry.checksum();

            match self.long_filename_buf.get_buf(checksum) {
                Ok(Some(units)) => {
                    let ghost run_checksums = self.long_filename_buf.frag_checksums@;
                    let ghost run_units = units@;
                    proof {
                        assert(flush == Some(units@));
                    }
                    let long_name = crate::utils::utf16_to_string(&units);
                    entry.set_long_name(long_name);
                    entry.lfn_offsets = clone_offsets(&self.run_offsets);
                    self.last_run_checksums = Ghost(run_checksums);
                    self.last_run_units = Ghost(run_units);
                },
                Ok(None) => {
                    proof {
                        assert(flush is None);
                    }
                },
                Err(_) => {
                    proof {
                        assert(flush is None);
                    }
                },
            }

            if slot_end >= 32 {
                entry.disk_offset = Some(slot_end - 32);
            }

            self.long_filename_buf.reset();
            self.run_offsets = Vec::new();

            proof {
                assert(self.spec_state() =~= ScanState { lfn: lfn_reset(), ..adv });
                assert(spec_scan(*fs, pre) == (ScanStep::Entry {
                    slot,
                    long: flush,
                    state: self.spec_state(),
                }));
            }

            return Some(entry);
        }
    }
}

} // verus!
