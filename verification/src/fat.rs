//! The File Allocation Table: next-cluster pointers keyed by cluster number.
//!
//! Each variant stores entries of a different width: 12-bit entries packed
//! three bytes to a pair, 16-bit and 32-bit entries little-endian.  The
//! decoded table answers chain walks; the encoders reproduce the on-disk
//! byte image for write-back.

use vstd::prelude::*;

use crate::FatType;

verus! {

broadcast use vstd::slice::axiom_spec_len;

/// Why a chain walk failed at a cluster.
#[derive(Debug, Clone, Copy, PartialEq, Eq, Structural)]
pub enum FatError {
    /// The cluster number 0 marks a free entry and heads no chain.
    FreeCluster,
    /// The cluster number lies in the variant's reserved range.
    ReservedCluster(u32),
    /// The cluster number is the variant's defective marker.
    DefectiveCluster,
    /// The table entry is not a data cluster, an end marker, nor anything
    /// else the variant gives a meaning to.
    InvalidEntry(u32),
}

/// Entry `i` of a FAT12 byte image: twelve bits, low nibble of the shared
/// middle byte for even entries, high nibble for odd ones.
pub open spec fn fat12_entry_of(b: Seq<u8>, i: int) -> u16 {
    if i % 2 == 0 {
        (b[3 * (i / 2)] + 0x100 * (b[3 * (i / 2) + 1] as int % 16)) as u16
    } else {
        (b[3 * (i / 2) + 1] as int / 16 + 16 * b[3 * (i / 2) + 2]) as u16
    }
}

/// Bytes needed to hold `n` 12-bit entries: three bytes per pair, two for a
/// final unpaired entry.
pub open spec fn fat12_len(n: int) -> int {
    (3 * n + 1) / 2
}

/// Byte `j` of the FAT12 encoding of `e`.
pub open spec fn fat12_byte_of(e: Seq<u16>, j: int) -> u8 {
    let k = j / 3;
    let r = j % 3;
    if r == 0 {
        (e[2 * k] as int % 256) as u8
    } else if r == 1 {
        if 2 * k + 1 < e.len() {
            (e[2 * k] as int / 256 + 16 * (e[2 * k + 1] as int % 16)) as u8
        } else {
            (e[2 * k] as int / 256) as u8
        }
    } else {
        (e[2 * k + 1] as int / 16) as u8
    }
}

/// The FAT12 encoding of an entry table.
pub open spec fn fat12_encode(e: Seq<u16>) -> Seq<u8> {
    Seq::new(fat12_len(e.len() as int) as nat, |j: int| fat12_byte_of(e, j))
}

/// The first `n` entries decoded from a FAT12 byte image.
pub open spec fn fat12_decode(b: Seq<u8>, n: nat) -> Seq<u16> {
    Seq::new(n, |i: int| fat12_entry_of(b, i))
}

/// Entry `i` of a FAT16 byte image: a little-endian 16-bit word.
pub open spec fn fat16_entry_of(b: Seq<u8>, i: int) -> u16 {
    (b[2 * i] + 0x100 * b[2 * i + 1]) as u16
}

/// Byte `j` of the FAT16 encoding of `e`.
pub open spec fn fat16_byte_of(e: Seq<u16>, j: int) -> u8 {
    if j % 2 == 0 {
        (e[j / 2] as int % 256) as u8
    } else {
        (e[j / 2] as int / 256) as u8
    }
}

/// The FAT16 encoding of an entry table.
pub open spec fn fat16_encode(e: Seq<u16>) -> Seq<u8> {
    Seq::new((2 * e.len()) as nat, |j: int| fat16_byte_of(e, j))
}

/// The first `n` entries decoded from a FAT16 byte image.
pub open spec fn fat16_decode(b: Seq<u8>, n: nat) -> Seq<u16> {
    Seq::new(n, |i: int| fat16_entry_of(b, i))
}

/// Raw word `i` of a FAT32 byte image: a little-endian 32-bit word with
/// its reserved top nibble still in place.
pub open spec fn fat32_raw_of(b: Seq<u8>, i: int) -> u32 {
    (b[4 * i] + 0x100 * b[4 * i + 1] + 0x1_0000 * b[4 * i + 2] + 0x100_0000 * b[4 * i + 3]) as u32
}

/// Entry `i` of a FAT32 byte image: a little-endian 32-bit word with the
/// reserved top nibble masked off.
pub open spec fn fat32_entry_of(b: Seq<u8>, i: int) -> u32 {
    ((b[4 * i] + 0x100 * b[4 * i + 1] + 0x1_0000 * b[4 * i + 2] + 0x100_0000 * b[4 * i + 3])
        % 0x1000_0000) as u32
}

/// Byte `j` of the FAT32 encoding of `e`.
pub open spec fn fat32_byte_of(e: Seq<u32>, j: int) -> u8 {
    let v = e[j / 4] as int;
    if j % 4 == 0 {
        (v % 256) as u8
    } else if j % 4 == 1 {
        (v / 0x100 % 256) as u8
    } else if j % 4 == 2 {
        (v / 0x1_0000 % 256) as u8
    } else {
        (v / 0x100_0000 % 256) as u8
    }
}

/// The FAT32 encoding of an entry table.
pub open spec fn fat32_encode(e: Seq<u32>) -> Seq<u8> {
    Seq::new((4 * e.len()) as nat, |j: int| fat32_byte_of(e, j))
}

/// The first `n` entries decoded from a FAT32 byte image.
pub open spec fn fat32_decode(b: Seq<u8>, n: nat) -> Seq<u32> {
    Seq::new(n, |i: int| fat32_entry_of(b, i))
}

/// Law: decoding a FAT12 encoding gives back the table, for every table
/// whose entries fit in twelve bits.
pub proof fn lemma_fat12_round_trip(e: Seq<u16>)
    requires
        forall|i: int| 0 <= i < e.len() ==> e[i] < 0x1000,
    ensures
        fat12_decode(fat12_encode(e), e.len()) == e,
{
    let b = fat12_encode(e);
    assert forall|i: int| 0 <= i < e.len() implies fat12_entry_of(b, i) == e[i] by {
        let k = i / 2;
        if i % 2 == 0 {
            assert(i == 2 * k) by (nonlinear_arith)
                requires
                    k == i / 2,
                    i % 2 == 0,
                    i >= 0,
            ;
            assert((3 * k) / 3 == k && (3 * k) % 3 == 0 && (3 * k + 1) / 3 == k && (3 * k + 1) % 3
                == 1) by (nonlinear_arith)
                requires
                    k >= 0,
            ;
            assert(3 * k + 1 < b.len()) by (nonlinear_arith)
                requires
                    k >= 0,
                    2 * k < e.len(),
                    b.len() == (3 * e.len() + 1) / 2,
            ;
            let v = e[i] as int;
            assert(b[3 * k] == (v % 256) as u8);
            let mid = b[3 * k + 1] as int;
            if 2 * k + 1 < e.len() {
                let w = e[2 * k + 1] as int;
                assert(mid == v / 256 + 16 * (w % 16));
                assert((v / 256 + 16 * (w % 16)) % 16 == v / 256) by (nonlinear_arith)
                    requires
                        0 <= v < 0x1000,
                        0 <= w,
                ;
            } else {
                assert(mid == v / 256);
                assert((v / 256) % 16 == v / 256) by (nonlinear_arith)
                    requires
                        0 <= v < 0x1000,
                ;
            }
            assert(v % 256 + 0x100 * (v / 256) == v) by (nonlinear_arith)
                requires
                    0 <= v < 0x1000,
            ;
        } else {
            assert(i == 2 * k + 1) by (nonlinear_arith)
                requires
                    k == i / 2,
                    i % 2 != 0,
                    i >= 0,
            ;
            assert((3 * k + 1) / 3 == k && (3 * k + 1) % 3 == 1 && (3 * k + 2) / 3 == k && (3 * k
                + 2) % 3 == 2) by (nonlinear_arith)
                requires
                    k >= 0,
            ;
            assert(3 * k + 2 < b.len()) by (nonlinear_arith)
                requires
                    k >= 0,
                    2 * k + 1 < e.len(),
                    b.len() == (3 * e.len() + 1) / 2,
            ;
            let v = e[2 * k] as int;
            let w = e[2 * k + 1] as int;
            assert(b[3 * k + 1] == (v / 256 + 16 * (w % 16)) as u8);
            assert(b[3 * k + 2] == (w / 16) as u8);
            assert((v / 256 + 16 * (w % 16)) / 16 == w % 16) by (nonlinear_arith)
                requires
                    0 <= v < 0x1000,
                    0 <= w,
            ;
            assert(w % 16 + 16 * (w / 16) == w) by (nonlinear_arith)
                requires
                    0 <= w,
            ;
        }
    }
    assert(fat12_decode(b, e.len()) =~= e);
}

/// Law: decoding a FAT16 encoding gives back the table, for every table.
pub proof fn lemma_fat16_round_trip(e: Seq<u16>)
    ensures
        fat16_decode(fat16_encode(e), e.len()) == e,
{
    let b = fat16_encode(e);
    assert forall|i: int| 0 <= i < e.len() implies fat16_entry_of(b, i) == e[i] by {
        assert((2 * i) / 2 == i && (2 * i) % 2 == 0 && (2 * i + 1) / 2 == i && (2 * i + 1) % 2 == 1)
            by (nonlinear_arith)
            requires
                i >= 0,
        ;
        assert(2 * i + 1 < b.len()) by (nonlinear_arith)
            requires
                i >= 0,
                i < e.len(),
                b.len() == 2 * e.len(),
        ;
        let v = e[i] as int;
        assert(b[2 * i] == (v % 256) as u8);
        assert(b[2 * i + 1] == (v / 256) as u8);
        assert(v % 256 + 0x100 * (v / 256) == v) by (nonlinear_arith)
            requires
                0 <= v < 0x1_0000,
        ;
    }
    assert(fat16_decode(b, e.len()) =~= e);
}

/// Law: decoding a FAT32 encoding gives back the table, for every table
/// whose entries fit in twenty-eight bits.
pub proof fn lemma_fat32_round_trip(e: Seq<u32>)
    requires
        forall|i: int| 0 <= i < e.len() ==> e[i] < 0x1000_0000,
    ensures
        fat32_decode(fat32_encode(e), e.len()) == e,
{
    let b = fat32_encode(e);
    assert forall|i: int| 0 <= i < e.len() implies fat32_entry_of(b, i) == e[i] by {
        assert((4 * i) / 4 == i && (4 * i) % 4 == 0 && (4 * i + 1) / 4 == i && (4 * i + 1) % 4 == 1
            && (4 * i + 2) / 4 == i && (4 * i + 2) % 4 == 2 && (4 * i + 3) / 4 == i && (4 * i + 3)
            % 4 == 3) by (nonlinear_arith)
            requires
                i >= 0,
        ;
        assert(4 * i + 3 < b.len()) by (nonlinear_arith)
            requires
                i >= 0,
                i < e.len(),
                b.len() == 4 * e.len(),
        ;
        let v = e[i] as int;
        assert(b[4 * i] == (v % 256) as u8);
        assert(b[4 * i + 1] == (v / 0x100 % 256) as u8);
        assert(b[4 * i + 2] == (v / 0x1_0000 % 256) as u8);
        assert(b[4 * i + 3] == (v / 0x100_0000 % 256) as u8);
        assert((v % 256 + 0x100 * (v / 0x100 % 256) + 0x1_0000 * (v / 0x1_0000 % 256) + 0x100_0000
            * (v / 0x100_0000 % 256)) % 0x1000_0000 == v) by (nonlinear_arith)
            requires
                0 <= v < 0x1000_0000,
        ;
    }
    assert(fat32_decode(b, e.len()) =~= e);
}

/// Number of free entries (value zero) among clusters `lo` (inclusive) to
/// `hi` (exclusive).
pub open spec fn free_in(entries: Seq<u32>, lo: int, hi: int) -> int
    decreases hi - lo,
{
    if hi <= lo {
        0
    } else {
        free_in(entries, lo, hi - 1) + if entries[hi - 1] == 0 {
            1int
        } else {
            0int
        }
    }
}

/// The free count lies between zero and the width of the counted range.
pub proof fn lemma_free_in_bounds(e: Seq<u32>, lo: int, hi: int)
    ensures
        0 <= free_in(e, lo, hi),
        hi >= lo ==> free_in(e, lo, hi) <= hi - lo,
        hi < lo ==> free_in(e, lo, hi) == 0,
    decreases hi - lo,
{
    if hi > lo {
        lemma_free_in_bounds(e, lo, hi - 1);
    }
}

/// Two tables that agree on a range have the same free count over it.
pub proof fn lemma_free_in_agree(e1: Seq<u32>, e2: Seq<u32>, lo: int, hi: int)
    requires
        forall|i: int| lo <= i < hi ==> e1[i] == e2[i],
    ensures
        free_in(e1, lo, hi) == free_in(e2, lo, hi),
    decreases hi - lo,
{
    if hi > lo {
        lemma_free_in_agree(e1, e2, lo, hi - 1);
    }
}

/// How one updated entry moves the free count.
pub proof fn lemma_free_in_update(e: Seq<u32>, lo: int, hi: int, c: int, v: u32)
    requires
        0 <= lo,
        hi <= e.len(),
        lo <= c < hi,
    ensures
        free_in(e.update(c, v), lo, hi) == free_in(e, lo, hi) - (if e[c] == 0 {
            1int
        } else {
            0int
        }) + (if v == 0 {
            1int
        } else {
            0int
        }),
    decreases hi - lo,
{
    let e2 = e.update(c, v);
    if c == hi - 1 {
        lemma_free_in_agree(e, e2, lo, hi - 1);
    } else {
        lemma_free_in_update(e, lo, hi - 1, c, v);
    }
}

/// A range without zero entries has free count zero.
pub proof fn lemma_free_in_none(e: Seq<u32>, lo: int, hi: int)
    requires
        forall|i: int| lo <= i < hi ==> e[i] != 0,
    ensures
        free_in(e, lo, hi) == 0,
    decreases hi - lo,
{
    if hi > lo {
        lemma_free_in_none(e, lo, hi - 1);
    }
}

/// A free count over a split range is the sum over its parts.
pub proof fn lemma_free_in_split(e: Seq<u32>, lo: int, mid: int, hi: int)
    requires
        lo <= mid <= hi,
    ensures
        free_in(e, lo, hi) == free_in(e, lo, mid) + free_in(e, mid, hi),
    decreases hi - mid,
{
    if hi > mid {
        lemma_free_in_split(e, lo, mid, hi - 1);
    } else {
        lemma_free_in_bounds(e, lo, hi);
    }
}

/// Index bounds of the bytes that entry `i` of `n` packed 12-bit entries
/// occupies.
proof fn lemma_fat12_index(i: int, n: int)
    requires
        0 <= i < n,
    ensures
        i % 2 == 0 ==> 3 * (i / 2) + 1 < fat12_len(n),
        i % 2 != 0 ==> 3 * (i / 2) + 2 < fat12_len(n),
{
    assert((i % 2 == 0 ==> 3 * (i / 2) + 1 < (3 * n + 1) / 2) && (i % 2 != 0 ==> 3 * (i / 2) + 2 < (
    3 * n + 1) / 2)) by (nonlinear_arith)
        requires
            0 <= i < n,
    ;
}

/// Quotients and remainders of the three byte positions of an entry pair.
proof fn lemma_div3(k: int)
    requires
        k >= 0,
    ensures
        (3 * k) / 3 == k,
        (3 * k) % 3 == 0,
        (3 * k + 1) / 3 == k,
        (3 * k + 1) % 3 == 1,
        (3 * k + 2) / 3 == k,
        (3 * k + 2) % 3 == 2,
{
    assert((3 * k) / 3 == k && (3 * k) % 3 == 0 && (3 * k + 1) / 3 == k && (3 * k + 1) % 3 == 1 && (
    3 * k + 2) / 3 == k && (3 * k + 2) % 3 == 2) by (nonlinear_arith)
        requires
            k >= 0,
    ;
}

/// The shared operation surface of the three FAT variants: entry access,
/// the variant's distinguished value ranges, free counting and encoding.
pub trait FatOps: Sized {
    /// The decoded next-cluster entries, indexed by cluster number.
    spec fn spec_entries(&self) -> Seq<u32>;

    /// The highest valid data cluster.
    spec fn spec_max(&self) -> u32;

    /// The table is well formed: its length covers cluster numbers 0 to
    /// `max`, its bound fits the variant, and every entry fits the entry
    /// width.
    spec fn wf(&self) -> bool;

    /// The byte image written back to each FAT copy on disk.
    spec fn spec_encoded(&self) -> Seq<u8>;

    /// The top of the variant's reserved range.
    spec fn spec_reserved_max(&self) -> u32;

    /// The variant's defective-cluster marker.
    spec fn spec_defective(&self) -> u32;

    /// The bottom of the variant's reserved-EOF band.
    spec fn spec_band_lo(&self) -> u32;

    /// The variant's canonical end-of-chain marker.
    spec fn spec_eof(&self) -> u32;

    /// The entry stored for a cluster.
    fn get_entry(&self, cluster: u32) -> (r: u32)
        requires
            self.wf(),
            cluster <= self.spec_max(),
        ensures
            r == self.spec_entries()[cluster as int],
    ;

    /// Stores an entry for a cluster.
    fn set_entry(&mut self, cluster: u32, entry: u32)
        requires
            old(self).wf(),
            cluster <= old(self).spec_max(),
            entry <= old(self).spec_eof(),
        ensures
            final(self).wf(),
            final(self).spec_max() == old(self).spec_max(),
            final(self).spec_entries() == old(self).spec_entries().update(
                cluster as int,
                entry,
            ),
    ;

    /// The inclusive range of valid data clusters.
    fn valid_clusters(&self) -> (r: (u32, u32))
        ensures
            r.0 == 2,
            r.1 == self.spec_max(),
    ;

    /// The inclusive range of reserved cluster numbers above the valid
    /// range.
    fn reserved_clusters(&self) -> (r: (u32, u32))
        requires
            self.wf(),
        ensures
            r.0 == self.spec_max() + 1,
            r.1 == self.spec_reserved_max(),
    ;

    /// The defective-cluster marker.
    fn defective_cluster(&self) -> (r: u32)
        ensures
            r == self.spec_defective(),
    ;

    /// The inclusive reserved-EOF band, read as end of chain.
    fn reserved_eof_clusters(&self) -> (r: (u32, u32))
        ensures
            r.0 == self.spec_band_lo(),
            r.1 == self.spec_eof() - 1,
    ;

    /// The canonical end-of-chain marker.
    fn eof_cluster(&self) -> (r: u32)
        ensures
            r == self.spec_eof(),
    ;

    /// Counts the free entries among the valid data clusters.
    fn count_free_clusters(&self) -> (r: usize)
        requires
            self.wf(),
        ensures
            r == free_in(self.spec_entries(), 2, self.spec_max() + 1),
    ;

    /// Produces the byte image of the table for write-back.
    fn encode(&self) -> (r: Vec<u8>)
        requires
            self.wf(),
        ensures
            r@ == self.spec_encoded(),
    ;
}

/// The FAT12 table: 12-bit entries held zero-extended in 16-bit words.
#[derive(Debug)]
pub struct Fat12 {
    pub max: u32,
    pub next_sectors: Vec<u16>,
}

impl Fat12 {
    /// Decodes a FAT12 byte image covering clusters 0 to `max`.
    pub fn new(bytes: &[u8], max: u32) -> (r: Fat12)
        requires
            max < 4085,
            bytes@.len() >= fat12_len(max + 1),
        ensures
            r.wf(),
            r.max == max,
            r.next_sectors@ == fat12_decode(bytes@, (max + 1) as nat),
    {
        let n: usize = bytes.len();
        let mut next_sectors: Vec<u16> = Vec::new();
        let mut i: u32 = 0;
        while i <= max
            invariant
                max < 4085,
                i <= max + 1,
                n == bytes@.len(),
                n >= fat12_len(max + 1),
                next_sectors@.len() == i,
                forall|t: int|
                    0 <= t < i ==> next_sectors@[t] == fat12_entry_of(bytes@, t)
                        && next_sectors@[t] < 0x1000,
            decreases max + 1 - i,
        {
            proof {
                lemma_fat12_index(i as int, max + 1);
            }
            let k: usize = (i / 2) as usize;
            let base: usize = 3 * k;
            let entry: u16 = if i % 2 == 0 {
                bytes[base] as u16 + 0x100 * ((bytes[base + 1] % 16) as u16)
            } else {
                (bytes[base + 1] / 16) as u16 + 16 * (bytes[base + 2] as u16)
            };
            next_sectors.push(entry);
            i += 1;
        }
        Fat12 { max, next_sectors }
    }
}

impl FatOps for Fat12 {
    open spec fn spec_entries(&self) -> Seq<u32> {
        self.next_sectors@.map_values(|x: u16| x as u32)
    }

    open spec fn spec_max(&self) -> u32 {
        self.max
    }

    open spec fn wf(&self) -> bool {
        &&& self.max < 4085
        &&& self.next_sectors@.len() == self.max + 1
        &&& forall|i: int| 0 <= i < self.next_sectors@.len() ==> self.next_sectors@[i] < 0x1000
    }

    open spec fn spec_encoded(&self) -> Seq<u8> {
        fat12_encode(self.next_sectors@)
    }

    open spec fn spec_reserved_max(&self) -> u32 {
        0xFF6
    }

    open spec fn spec_defective(&self) -> u32 {
        0xFF7
    }

    open spec fn spec_band_lo(&self) -> u32 {
        0xFF8
    }

    open spec fn spec_eof(&self) -> u32 {
        0xFFF
    }

    fn get_entry(&self, cluster: u32) -> (r: u32) {
        self.next_sectors[cluster as usize] as u32
    }

    fn set_entry(&mut self, cluster: u32, entry: u32) {
        self.next_sectors.set(cluster as usize, entry as u16);
        proof {
            assert(self.spec_entries() =~= old(self).spec_entries().update(
                cluster as int,
                entry,
            ));
        }
    }

    fn valid_clusters(&self) -> (r: (u32, u32)) {
        (2, self.max)
    }

    fn reserved_clusters(&self) -> (r: (u32, u32)) {
        (self.max + 1, 0xFF6)
    }

    fn defective_cluster(&self) -> (r: u32) {
        0xFF7
    }

    fn reserved_eof_clusters(&self) -> (r: (u32, u32)) {
        (0xFF8, 0xFFE)
    }

    fn eof_cluster(&self) -> (r: u32) {
        0xFFF
    }

    fn count_free_clusters(&self) -> (r: usize) {
        count_free_u16(&self.next_sectors, self.max)
    }

    fn encode(&self) -> (r: Vec<u8>) {
        encode_u16_fat12(&self.next_sectors)
    }
}

/// Counts zero entries among clusters 2 to `max` of a 16-bit table.
fn count_free_u16(v: &Vec<u16>, max: u32) -> (r: usize)
    requires
        v@.len() == max + 1,
        max < 0x1000_0000,
    ensures
        r == free_in(v@.map_values(|x: u16| x as u32), 2, max + 1),
{
    let entries = Ghost(v@.map_values(|x: u16| x as u32));
    if max < 2 {
        return 0;
    }
    let mut count: usize = 0;
    let mut c: u32 = 2;
    while c <= max
        invariant
            2 <= c <= max + 1,
            max < 0x1000_0000,
            v@.len() == max + 1,
            entries@ == v@.map_values(|x: u16| x as u32),
            count == free_in(entries@, 2, c as int),
            count <= c,
        decreases max + 1 - c,
    {
        if v[c as usize] == 0 {
            count += 1;
        }
        c += 1;
    }
    count
}

/// Counts entries whose masked value is zero among clusters 2 to `max` of
/// a 32-bit table of raw words.
fn count_free_u32(v: &Vec<u32>, max: u32) -> (r: usize)
    requires
        v@.len() == max + 1,
        max < 0x1000_0000,
    ensures
        r == free_in(v@.map_values(|x: u32| (x % 0x1000_0000) as u32), 2, max + 1),
{
    let entries = Ghost(v@.map_values(|x: u32| (x % 0x1000_0000) as u32));
    if max < 2 {
        return 0;
    }
    let mut count: usize = 0;
    let mut c: u32 = 2;
    while c <= max
        invariant
            2 <= c <= max + 1,
            max < 0x1000_0000,
            v@.len() == max + 1,
            entries@ == v@.map_values(|x: u32| (x % 0x1000_0000) as u32),
            count == free_in(entries@, 2, c as int),
            count <= c,
        decreases max + 1 - c,
    {
        if v[c as usize] % 0x1000_0000 == 0 {
            count += 1;
        }
        c += 1;
    }
    count
}

/// Packs a table of 12-bit entries into its on-disk bytes.
fn encode_u16_fat12(v: &Vec<u16>) -> (r: Vec<u8>)
    requires
        forall|i: int| 0 <= i < v@.len() ==> v@[i] < 0x1000,
        v@.len() <= 0x1_0000,
    ensures
        r@ == fat12_encode(v@),
{
    let n: usize = v.len();
    let mut out: Vec<u8> = Vec::new();
    let mut k: usize = 0;
    while 2 * k + 1 < n
        invariant
            2 * k <= n <= 0x1_0000,
            n == v@.len(),
            forall|i: int| 0 <= i < v@.len() ==> v@[i] < 0x1000,
            out@.len() == 3 * k,
            forall|j: int| 0 <= j < out@.len() ==> out@[j] == fat12_byte_of(v@, j),
        decreases n - 2 * k,
    {
        let e0 = v[2 * k];
        let e1 = v[2 * k + 1];
        proof {
            lemma_div3(k as int);
        }
        out.push((e0 % 256) as u8);
        out.push((e0 / 256) as u8 + 16 * ((e1 % 16) as u8));
        out.push((e1 / 16) as u8);
        k += 1;
    }
    if 2 * k < n {
        let e0 = v[2 * k];
        proof {
            lemma_div3(k as int);
        }
        out.push((e0 % 256) as u8);
        out.push((e0 / 256) as u8);
        proof {
            assert(out@.len() == fat12_len(n as int)) by (nonlinear_arith)
                requires
                    out@.len() == 3 * (k as int) + 2,
                    n == 2 * (k as int) + 1,
                    k >= 0,
                    fat12_len(n as int) == (3 * n + 1) / 2,
            ;
        }
    } else {
        proof {
            assert(out@.len() == fat12_len(n as int)) by (nonlinear_arith)
                requires
                    out@.len() == 3 * (k as int),
                    n == 2 * (k as int),
                    k >= 0,
                    fat12_len(n as int) == (3 * n + 1) / 2,
            ;
        }
    }
    proof {
        assert(out@ =~= fat12_encode(v@));
    }
    out
}

/// Quotients and remainders of the two byte positions of a 16-bit entry.
proof fn lemma_div2(i: int)
    requires
        i >= 0,
    ensures
        (2 * i) / 2 == i,
        (2 * i) % 2 == 0,
        (2 * i + 1) / 2 == i,
        (2 * i + 1) % 2 == 1,
{
    assert((2 * i) / 2 == i && (2 * i) % 2 == 0 && (2 * i + 1) / 2 == i && (2 * i + 1) % 2 == 1)
        by (nonlinear_arith)
        requires
            i >= 0,
    ;
}

/// Quotients and remainders of the four byte positions of a 32-bit entry.
proof fn lemma_div4(i: int)
    requires
        i >= 0,
    ensures
        (4 * i) / 4 == i && (4 * i) % 4 == 0,
        (4 * i + 1) / 4 == i && (4 * i + 1) % 4 == 1,
        (4 * i + 2) / 4 == i && (4 * i + 2) % 4 == 2,
        (4 * i + 3) / 4 == i && (4 * i + 3) % 4 == 3,
{
    assert((4 * i) / 4 == i && (4 * i) % 4 == 0 && (4 * i + 1) / 4 == i && (4 * i + 1) % 4 == 1 && (
    4 * i + 2) / 4 == i && (4 * i + 2) % 4 == 2 && (4 * i + 3) / 4 == i && (4 * i + 3) % 4 == 3)
        by (nonlinear_arith)
        requires
            i >= 0,
    ;
}

/// The FAT16 table: one little-endian 16-bit word per entry.
#[derive(Debug)]
pub struct Fat16 {
    pub max: u32,
    pub next_sectors: Vec<u16>,
}

impl Fat16 {
    /// Decodes a FAT16 byte image covering clusters 0 to `max`.
    pub fn new(bytes: &[u8], max: u32) -> (r: Fat16)
        requires
            4085 <= max < 65525,
            bytes@.len() >= 2 * (max + 1),
        ensures
            r.wf(),
            r.max == max,
            r.next_sectors@ == fat16_decode(bytes@, (max + 1) as nat),
    {
        let n: usize = bytes.len();
        let mut next_sectors: Vec<u16> = Vec::new();
        let mut i: u32 = 0;
        while i <= max
            invariant
                max < 65525,
                i <= max + 1,
                n == bytes@.len(),
                n >= 2 * (max + 1),
                next_sectors@.len() == i,
                forall|t: int| 0 <= t < i ==> next_sectors@[t] == fat16_entry_of(bytes@, t),
            decreases max + 1 - i,
        {
            let base: usize = 2 * (i as usize);
            let entry: u16 = bytes[base] as u16 + 0x100 * (bytes[base + 1] as u16);
            next_sectors.push(entry);
            i += 1;
        }
        Fat16 { max, next_sectors }
    }
}

impl FatOps for Fat16 {
    open spec fn spec_entries(&self) -> Seq<u32> {
        self.next_sectors@.map_values(|x: u16| x as u32)
    }

    open spec fn spec_max(&self) -> u32 {
        self.max
    }

    open spec fn wf(&self) -> bool {
        &&& 4085 <= self.max < 65525
        &&& self.next_sectors@.len() == self.max + 1
    }

    open spec fn spec_encoded(&self) -> Seq<u8> {
        fat16_encode(self.next_sectors@)
    }

    open spec fn spec_reserved_max(&self) -> u32 {
        0xFFF6
    }

    open spec fn spec_defective(&self) -> u32 {
        0xFFF7
    }

    open spec fn spec_band_lo(&self) -> u32 {
        0xFFF8
    }

    open spec fn spec_eof(&self) -> u32 {
        0xFFFF
    }

    fn get_entry(&self, cluster: u32) -> (r: u32) {
        self.next_sectors[cluster as usize] as u32
    }

    fn set_entry(&mut self, cluster: u32, entry: u32) {
        self.next_sectors.set(cluster as usize, entry as u16);
        proof {
            assert(self.spec_entries() =~= old(self).spec_entries().update(
                cluster as int,
                entry,
            ));
        }
    }

    fn valid_clusters(&self) -> (r: (u32, u32)) {
        (2, self.max)
    }

    fn reserved_clusters(&self) -> (r: (u32, u32)) {
        (self.max + 1, 0xFFF6)
    }

    fn defective_cluster(&self) -> (r: u32) {
        0xFFF7
    }

    fn reserved_eof_clusters(&self) -> (r: (u32, u32)) {
        (0xFFF8, 0xFFFE)
    }

    fn eof_cluster(&self) -> (r: u32) {
        0xFFFF
    }

    fn count_free_clusters(&self) -> (r: usize) {
        count_free_u16(&self.next_sectors, self.max)
    }

    fn encode(&self) -> (r: Vec<u8>) {
        let n: usize = self.next_sectors.len();
        let mut out: Vec<u8> = Vec::new();
        let mut i: usize = 0;
        while i < n
            invariant
                i <= n == self.next_sectors@.len(),
                n < 0x1_0000,
                out@.len() == 2 * i,
                forall|j: int| 0 <= j < out@.len() ==> out@[j] == fat16_byte_of(self.next_sectors@, j),
            decreases n - i,
        {
            let e = self.next_sectors[i];
            proof {
                lemma_div2(i as int);
            }
            out.push((e % 256) as u8);
            out.push((e / 256) as u8);
            i += 1;
        }
        proof {
            assert(out@ =~= fat16_encode(self.next_sectors@));
        }
        out
    }
}

/// The FAT32 table: one little-endian 32-bit word per entry.  The words
/// keep their reserved top nibble; it is masked off wherever an entry is
/// read, and preserved when one is written back.
#[derive(Debug)]
pub struct Fat32 {
    pub max: u32,
    pub next_sectors: Vec<u32>,
}

impl Fat32 {
    /// Decodes a FAT32 byte image covering clusters 0 to `max`, keeping
    /// the reserved top nibbles.
    pub fn new(bytes: &[u8], max: u32) -> (r: Fat32)
        requires
            65525 <= max < 0x0FFF_FFF6,
            bytes@.len() >= 4 * (max + 1),
        ensures
            r.wf(),
            r.max == max,
            forall|t: int| 0 <= t < max + 1 ==> r.next_sectors@[t] == fat32_raw_of(bytes@, t),
            r.spec_entries() == fat32_decode(bytes@, (max + 1) as nat),
    {
        let n: usize = bytes.len();
        let mut next_sectors: Vec<u32> = Vec::new();
        let mut i: u32 = 0;
        while i <= max
            invariant
                max < 0x0FFF_FFF6,
                i <= max + 1,
                n == bytes@.len(),
                n >= 4 * (max + 1),
                next_sectors@.len() == i,
                forall|t: int| 0 <= t < i ==> next_sectors@[t] == fat32_raw_of(bytes@, t),
            decreases max + 1 - i,
        {
            let base: usize = 4 * (i as usize);
            let word: u32 = bytes[base] as u32 + 0x100 * (bytes[base + 1] as u32) + 0x1_0000 * (
            bytes[base + 2] as u32) + 0x100_0000 * (bytes[base + 3] as u32);
            next_sectors.push(word);
            i += 1;
        }
        let r = Fat32 { max, next_sectors };
        proof {
            assert(r.spec_entries() =~= fat32_decode(bytes@, (max + 1) as nat));
        }
        r
    }
}

impl FatOps for Fat32 {
    open spec fn spec_entries(&self) -> Seq<u32> {
        self.next_sectors@.map_values(|x: u32| (x % 0x1000_0000) as u32)
    }

    open spec fn spec_max(&self) -> u32 {
        self.max
    }

    open spec fn wf(&self) -> bool {
        &&& 65525 <= self.max < 0x0FFF_FFF6
        &&& self.next_sectors@.len() == self.max + 1
    }

    open spec fn spec_encoded(&self) -> Seq<u8> {
        fat32_encode(self.next_sectors@)
    }

    open spec fn spec_reserved_max(&self) -> u32 {
        0x0FFF_FFF6
    }

    open spec fn spec_defective(&self) -> u32 {
        0x0FFF_FFF7
    }

    open spec fn spec_band_lo(&self) -> u32 {
        0x0FFF_FFF8
    }

    open spec fn spec_eof(&self) -> u32 {
        0x0FFF_FFFF
    }

    fn get_entry(&self, cluster: u32) -> (r: u32) {
        self.next_sectors[cluster as usize] % 0x1000_0000
    }

    fn set_entry(&mut self, cluster: u32, entry: u32) {
        // the top nibble of the word is reserved: read it, keep it
        let kept: u32 = self.next_sectors[cluster as usize] & 0xF000_0000;
        let word: u32 = kept | entry;
        proof {
            let old_word = old(self).next_sectors@[cluster as int];
            let e = entry;
            assert(e < 0x1000_0000 ==> ((old_word & 0xF000_0000) | e) % 0x1000_0000 == e)
                by (bit_vector);
        }
        self.next_sectors.set(cluster as usize, word);
        proof {
            assert(self.spec_entries() =~= old(self).spec_entries().update(
                cluster as int,
                entry,
            ));
        }
    }

    fn valid_clusters(&self) -> (r: (u32, u32)) {
        (2, self.max)
    }

    fn reserved_clusters(&self) -> (r: (u32, u32)) {
        (self.max + 1, 0x0FFF_FFF6)
    }

    fn defective_cluster(&self) -> (r: u32) {
        0x0FFF_FFF7
    }

    fn reserved_eof_clusters(&self) -> (r: (u32, u32)) {
        (0x0FFF_FFF8, 0x0FFF_FFFE)
    }

    fn eof_cluster(&self) -> (r: u32) {
        0x0FFF_FFFF
    }

    fn count_free_clusters(&self) -> (r: usize) {
        count_free_u32(&self.next_sectors, self.max)
    }

    fn encode(&self) -> (r: Vec<u8>) {
        let n: usize = self.next_sectors.len();
        let mut out: Vec<u8> = Vec::new();
        let mut i: usize = 0;
        while i < n
            invariant
                i <= n == self.next_sectors@.len(),
                n < 0x1000_0000,
                out@.len() == 4 * i,
                forall|j: int| 0 <= j < out@.len() ==> out@[j] == fat32_byte_of(self.next_sectors@, j),
            decreases n - i,
        {
            let e = self.next_sectors[i];
            proof {
                lemma_div4(i as int);
            }
            out.push((e % 256) as u8);
            out.push(((e / 0x100) % 256) as u8);
            out.push(((e / 0x1_0000) % 256) as u8);
            out.push(((e / 0x100_0000) % 256) as u8);
            i += 1;
        }
        proof {
            assert(out@ =~= fat32_encode(self.next_sectors@));
        }
        out
    }
}

/// The decoded FAT of a volume, tagged by variant.
#[derive(Debug)]
pub enum Fat {
    Fat12(Fat12),
    Fat16(Fat16),
    Fat32(Fat32),
}

impl Fat {
    /// The variant of this table.
    pub open spec fn spec_fat_type(&self) -> FatType {
        match self {
            Fat::Fat12(_) => FatType::Fat12,
            Fat::Fat16(_) => FatType::Fat16,
            Fat::Fat32(_) => FatType::Fat32,
        }
    }

    /// Decodes the FAT byte image of the given variant, covering clusters 0
    /// to `max`.
    pub fn new(fat_type: FatType, bytes: &[u8], max: u32) -> (r: Fat)
        requires
            match fat_type {
                FatType::Fat12 => max < 4085 && bytes@.len() >= fat12_len(max + 1),
                FatType::Fat16 => 4085 <= max < 65525 && bytes@.len() >= 2 * (max + 1),
                FatType::Fat32 => 65525 <= max < 0x0FFF_FFF6 && bytes@.len() >= 4 * (max + 1),
            },
        ensures
            r.wf(),
            r.spec_fat_type() == fat_type,
            r.spec_max() == max,
            r.spec_entries() == match fat_type {
                FatType::Fat12 => fat12_decode(bytes@, (max + 1) as nat).map_values(
                    |x: u16| x as u32,
                ),
                FatType::Fat16 => fat16_decode(bytes@, (max + 1) as nat).map_values(
                    |x: u16| x as u32,
                ),
                FatType::Fat32 => fat32_decode(bytes@, (max + 1) as nat),
            },
    {
        match fat_type {
            FatType::Fat12 => Fat::Fat12(Fat12::new(bytes, max)),
            FatType::Fat16 => Fat::Fat16(Fat16::new(bytes, max)),
            FatType::Fat32 => Fat::Fat32(Fat32::new(bytes, max)),
        }
    }

    /// What a chain walk finds after `cluster`: the next data cluster, the
    /// end of the chain, or a kinded error.
    pub open spec fn spec_next(&self, c: u32) -> Result<Option<u32>, FatError> {
        if c == 0 {
            Err(FatError::FreeCluster)
        } else if c <= self.spec_max() {
            let e = self.spec_entries()[c as int];
            if e == self.spec_eof() || (self.spec_band_lo() <= e <= self.spec_eof() - 1) {
                Ok(None)
            } else if 2 <= e <= self.spec_max() {
                Ok(Some(e))
            } else {
                Err(FatError::InvalidEntry(e))
            }
        } else if c <= self.spec_reserved_max() {
            Err(FatError::ReservedCluster(c))
        } else if c == self.spec_defective() {
            Err(FatError::DefectiveCluster)
        } else {
            Err(FatError::ReservedCluster(c))
        }
    }

    /// The next data cluster after `cluster`, `None` at the end of a chain
    /// (the canonical marker or anything in the reserved-EOF band), and a
    /// kinded error for a free, reserved or defective cluster number or an
    /// entry outside every meaningful range.
    pub fn get_next_cluster(&self, cluster: u32) -> (r: Result<Option<u32>, FatError>)
        requires
            self.wf(),
        ensures
            r == self.spec_next(cluster),
    {
        if cluster == 0 {
            return Err(FatError::FreeCluster);
        }

        let (_, max) = self.valid_clusters();

        if cluster <= max {
            let entry = self.get_entry(cluster);
            let eof = self.eof_cluster();
            let (band_lo, band_hi) = self.reserved_eof_clusters();

            if entry == eof || (band_lo <= entry && entry <= band_hi) {
                return Ok(None);
            }

            if 2 <= entry && entry <= max {
                return Ok(Some(entry));
            }

            return Err(FatError::InvalidEntry(entry));
        }

        let (_, reserved_max) = self.reserved_clusters();

        if cluster <= reserved_max {
            return Err(FatError::ReservedCluster(cluster));
        }

        if cluster == self.defective_cluster() {
            return Err(FatError::DefectiveCluster);
        }

        Err(FatError::ReservedCluster(cluster))
    }
}

impl FatOps for Fat {
    open spec fn spec_entries(&self) -> Seq<u32> {
        match self {
            Fat::Fat12(f) => f.spec_entries(),
            Fat::Fat16(f) => f.spec_entries(),
            Fat::Fat32(f) => f.spec_entries(),
        }
    }

    open spec fn spec_max(&self) -> u32 {
        match self {
            Fat::Fat12(f) => f.spec_max(),
            Fat::Fat16(f) => f.spec_max(),
            Fat::Fat32(f) => f.spec_max(),
        }
    }

    open spec fn wf(&self) -> bool {
        match self {
            Fat::Fat12(f) => f.wf(),
            Fat::Fat16(f) => f.wf(),
            Fat::Fat32(f) => f.wf(),
        }
    }

    open spec fn spec_encoded(&self) -> Seq<u8> {
        match self {
            Fat::Fat12(f) => f.spec_encoded(),
            Fat::Fat16(f) => f.spec_encoded(),
            Fat::Fat32(f) => f.spec_encoded(),
        }
    }

    open spec fn spec_reserved_max(&self) -> u32 {
        match self {
            Fat::Fat12(f) => f.spec_reserved_max(),
            Fat::Fat16(f) => f.spec_reserved_max(),
            Fat::Fat32(f) => f.spec_reserved_max(),
        }
    }

    open spec fn spec_defective(&self) -> u32 {
        match self {
            Fat::Fat12(f) => f.spec_defective(),
            Fat::Fat16(f) => f.spec_defective(),
            Fat::Fat32(f) => f.spec_defective(),
        }
    }

    open spec fn spec_band_lo(&self) -> u32 {
        match self {
            Fat::Fat12(f) => f.spec_band_lo(),
            Fat::Fat16(f) => f.spec_band_lo(),
            Fat::Fat32(f) => f.spec_band_lo(),
        }
    }

    open spec fn spec_eof(&self) -> u32 {
        match self {
            Fat::Fat12(f) => f.spec_eof(),
            Fat::Fat16(f) => f.spec_eof(),
            Fat::Fat32(f) => f.spec_eof(),
        }
    }

    fn get_entry(&self, cluster: u32) -> (r: u32) {
        match self {
            Fat::Fat12(f) => f.get_entry(cluster),
            Fat::Fat16(f) => f.get_entry(cluster),
            Fat::Fat32(f) => f.get_entry(cluster),
        }
    }

    fn set_entry(&mut self, cluster: u32, entry: u32) {
        match self {
            Fat::Fat12(f) => f.set_entry(cluster, entry),
            Fat::Fat16(f) => f.set_entry(cluster, entry),
            Fat::Fat32(f) => f.set_entry(cluster, entry),
        }
    }

    fn valid_clusters(&self) -> (r: (u32, u32)) {
        match self {
            Fat::Fat12(f) => f.valid_clusters(),
            Fat::Fat16(f) => f.valid_clusters(),
            Fat::Fat32(f) => f.valid_clusters(),
        }
    }

    fn reserved_clusters(&self) -> (r: (u32, u32)) {
        match self {
            Fat::Fat12(f) => f.reserved_clusters(),
            Fat::Fat16(f) => f.reserved_clusters(),
            Fat::Fat32(f) => f.reserved_clusters(),
        }
    }

    fn defective_cluster(&self) -> (r: u32) {
        match self {
            Fat::Fat12(f) => f.defective_cluster(),
            Fat::Fat16(f) => f.defective_cluster(),
            Fat::Fat32(f) => f.defective_cluster(),
        }
    }

    fn reserved_eof_clusters(&self) -> (r: (u32, u32)) {
        match self {
            Fat::Fat12(f) => f.reserved_eof_clusters(),
            Fat::Fat16(f) => f.reserved_eof_clusters(),
            Fat::Fat32(f) => f.reserved_eof_clusters(),
        }
    }

    fn eof_cluster(&self) -> (r: u32) {
        match self {
            Fat::Fat12(f) => f.eof_cluster(),
            Fat::Fat16(f) => f.eof_cluster(),
            Fat::Fat32(f) => f.eof_cluster(),
        }
    }

    fn count_free_clusters(&self) -> (r: usize) {
        match self {
            Fat::Fat12(f) => f.count_free_clusters(),
            Fat::Fat16(f) => f.count_free_clusters(),
            Fat::Fat32(f) => f.count_free_clusters(),
        }
    }

    fn encode(&self) -> (r: Vec<u8>) {
        match self {
            Fat::Fat12(f) => f.encode(),
            Fat::Fat16(f) => f.encode(),
            Fat::Fat32(f) => f.encode(),
        }
    }
}

} // verus!
