//! A FAT12/FAT16/FAT32 filesystem engine over an in-memory volume image.
//!
//! The engine parses the boot parameter block, decodes the file allocation
//! table, resolves cluster chains, and iterates directories with long-name
//! reconstruction.  The volume image is held in memory; a host reads it from
//! its storage, hands it to [`FatFs::load`], and writes it back when done.

use vstd::prelude::*;

use crate::fat::FatOps;

pub mod bpb;
pub mod datetime;
pub mod dir;
pub mod fat;
pub mod fs_info;
pub mod iter;
pub mod slice_like;
pub mod subslice;
pub mod utils;

verus! {

/// The three FAT variants, chosen by the count of data clusters of a volume.
#[derive(Debug, Clone, Copy, PartialEq, Eq, Structural)]
pub enum FatType {
    Fat12,
    Fat16,
    Fat32,
}

/// Why a volume could not be mounted.
#[derive(Debug, Clone, Copy, PartialEq, Eq, Structural)]
pub enum FatFsError {
    /// The image is too short for the boot sector or for a region the boot
    /// sector describes.
    TruncatedImage,
    /// The boot sector failed validation.
    Bpb(crate::bpb::BpbError),
    /// A FAT32 volume claims more clusters than the entry range can name.
    TooManyClusters,
    /// The FAT region is too small for the volume's count of clusters.
    FatTruncated,
}

/// Byte offset of the first FAT copy, from the raw boot sector.
pub open spec fn spec_fat_offset_of(b: Seq<u8>) -> int {
    crate::bpb::spec_reserved_sector_count(b) * crate::bpb::spec_bytes_per_sector(b)
}

/// Byte length of one FAT copy, from the raw boot sector.
pub open spec fn spec_fat_len_of(b: Seq<u8>) -> int {
    crate::bpb::spec_fat_size_of(b) * crate::bpb::spec_bytes_per_sector(b)
}

/// Byte offset of the fixed root directory, from the raw boot sector.
pub open spec fn spec_root_dir_offset_of(b: Seq<u8>) -> int {
    (crate::bpb::spec_reserved_sector_count(b) + crate::bpb::spec_num_fats(b)
        * crate::bpb::spec_fat_size_of(b)) * crate::bpb::spec_bytes_per_sector(b)
}

/// Byte length of the fixed root directory, from the raw boot sector.
pub open spec fn spec_root_dir_len_of(b: Seq<u8>) -> int {
    crate::bpb::spec_root_dir_sectors_of(b) * crate::bpb::spec_bytes_per_sector(b)
}

/// Byte offset of the data region, from the raw boot sector.
pub open spec fn spec_data_offset_of(b: Seq<u8>) -> int {
    crate::bpb::spec_overhead_sectors_of(b) * crate::bpb::spec_bytes_per_sector(b)
}

/// Byte length of the data region, from the raw boot sector.
pub open spec fn spec_data_len_of(b: Seq<u8>) -> int {
    (crate::bpb::spec_total_sectors_of(b) - crate::bpb::spec_overhead_sectors_of(b))
        * crate::bpb::spec_bytes_per_sector(b)
}

/// Bytes one FAT copy must hold to cover every cluster of the volume.
pub open spec fn spec_fat_needed_of(b: Seq<u8>) -> int {
    let n = crate::bpb::spec_count_of_clusters_of(b) + 1;
    match crate::bpb::spec_classify(b) {
        FatType::Fat12 => crate::fat::fat12_len(n),
        FatType::Fat16 => 2 * n,
        FatType::Fat32 => 4 * n,
    }
}

/// A FAT32 count of clusters must stay below the reserved entry values.
pub open spec fn spec_cluster_cap_ok(b: Seq<u8>) -> bool {
    crate::bpb::spec_classify(b) == FatType::Fat32 ==> crate::bpb::spec_count_of_clusters_of(b)
        < 0x0FFF_FFF6
}

/// The FAT, root directory and data regions all lie inside the image.
pub open spec fn spec_regions_ok(b: Seq<u8>, image_len: int) -> bool {
    &&& spec_fat_offset_of(b) + spec_fat_len_of(b) <= image_len
    &&& (crate::bpb::spec_classify(b) != FatType::Fat32 ==> spec_root_dir_offset_of(b)
        + spec_root_dir_len_of(b) <= image_len)
    &&& spec_data_offset_of(b) + spec_data_len_of(b) <= image_len
}

/// Everything `FatFs::load` checks: a volume image mounts exactly when
/// this holds.
pub open spec fn spec_mount_ok(data: Seq<u8>) -> bool {
    &&& data.len() >= 512
    &&& crate::bpb::spec_bpb_valid(data.subrange(0, 512))
    &&& spec_cluster_cap_ok(data.subrange(0, 512))
    &&& spec_fat_needed_of(data.subrange(0, 512)) <= spec_fat_len_of(data.subrange(0, 512))
    &&& spec_regions_ok(data.subrange(0, 512), data.len() as int)
}

/// A mounted volume: the image, the decoded BPB and FAT, the derived
/// offsets, and the free-cluster bookkeeping.
#[derive(Debug)]
pub struct FatFs {
    pub inner: crate::slice_like::MemSlice,
    pub fat_offset: u64,
    pub fat_size: u64,
    pub root_dir_offset: Option<u64>,
    pub root_dir_size: usize,
    pub data_offset: u64,
    pub data_size: u64,
    pub bytes_per_cluster: usize,
    pub bpb: crate::bpb::Bpb,
    pub fat: crate::fat::Fat,
    pub free_count: u32,
    pub next_free: u32,
}

impl FatFs {
    /// The bytes of the volume image.
    pub open spec fn spec_image(self) -> Seq<u8> {
        self.inner.data@
    }

    /// The highest valid data cluster.
    pub open spec fn spec_max(self) -> u32 {
        self.fat.spec_max()
    }

    /// Byte offset of a data cluster's window.
    pub open spec fn spec_cluster_offset(self, cluster: int) -> int {
        self.data_offset + (cluster - 2) * self.bytes_per_cluster
    }

    /// Well-formedness of a mounted volume: the BPB and FAT are well
    /// formed and agree, the cached offsets are the BPB's derived
    /// geometry, every region lies inside the image, every valid cluster's
    /// window lies inside the data region, and the cached free count is
    /// the table's.
    pub open spec fn wf(self) -> bool {
        &&& self.bpb.wf()
        &&& self.fat.wf()
        &&& self.fat.spec_fat_type() == self.bpb.fat_type
        &&& self.fat.spec_max() as int == self.bpb.spec_count_of_clusters()
        &&& self.fat_offset as int == self.bpb.spec_fat_offset()
        &&& self.fat_size as int == self.bpb.spec_fat_len_bytes()
        &&& (self.bpb.fat_type == FatType::Fat32 ==> self.root_dir_offset is None
            && self.root_dir_size == 0)
        &&& (self.bpb.fat_type != FatType::Fat32 ==> self.root_dir_offset is Some
            && self.root_dir_offset->0 as int == self.bpb.spec_root_dir_offset()
            && self.root_dir_size as int == self.bpb.spec_root_dir_len_bytes())
        &&& self.data_offset as int == self.bpb.spec_data_offset()
        &&& self.data_size as int == self.bpb.spec_data_len_bytes()
        &&& self.bytes_per_cluster as int == self.bpb.spec_bytes_per_cluster()
        &&& self.fat_offset + self.fat_size <= self.spec_image().len()
        &&& (self.bpb.fat_type != FatType::Fat32 ==> self.bpb.spec_root_dir_offset()
            + self.bpb.spec_root_dir_len_bytes() <= self.spec_image().len())
        &&& self.data_offset + self.data_size <= self.spec_image().len()
        &&& (self.spec_max() - 1) * self.bytes_per_cluster <= self.data_size
        &&& self.free_count as int == crate::fat::free_in(
            self.fat.spec_entries(),
            2,
            self.spec_max() + 1,
        )
        &&& 2 <= self.next_free
        &&& self.fat.spec_encoded().len() <= self.fat_size
    }

    /// Mounts a volume image.  Succeeds exactly when `spec_mount_ok` holds
    /// of the bytes: the boot sector validates, the cluster count fits the
    /// variant's entry range, one FAT copy covers every cluster, and the
    /// FAT, root directory and data regions lie inside the image.  The
    /// geometry is validated eagerly, by design: a boot sector that
    /// describes a region past the end of the image fails the mount
    /// outright, where a lazy host would fail only on the first access to
    /// the missing bytes.  The mounted volume is well formed, keeps the
    /// image bytes, and carries the FAT decoded from the first FAT copy.
    #[verifier::rlimit(100)]
    pub fn load(data: Vec<u8>) -> (r: Result<FatFs, FatFsError>)
        ensures
            r is Ok <==> spec_mount_ok(data@),
            r is Ok ==> ({
                let fs = r->Ok_0;
                let b = data@.subrange(0, 512);
                &&& fs.wf()
                &&& fs.spec_image() == data@
                &&& fs.bpb.fat_type == crate::bpb::spec_classify(b)
                &&& fs.spec_max() as int == crate::bpb::spec_count_of_clusters_of(b)
                &&& fs.fat.spec_entries() == ({
                    let fat_bytes = data@.subrange(
                        spec_fat_offset_of(b),
                        spec_fat_offset_of(b) + spec_fat_len_of(b),
                    );
                    let n = (crate::bpb::spec_count_of_clusters_of(b) + 1) as nat;
                    match crate::bpb::spec_classify(b) {
                        FatType::Fat12 => crate::fat::fat12_decode(fat_bytes, n).map_values(
                            |x: u16| x as u32,
                        ),
                        FatType::Fat16 => crate::fat::fat16_decode(fat_bytes, n).map_values(
                            |x: u16| x as u32,
                        ),
                        FatType::Fat32 => crate::fat::fat32_decode(fat_bytes, n),
                    }
                })
                &&& fs.next_free == 2
            }),
            r is Err ==> ({
                let b = data@.subrange(0, 512);
                let e = r->Err_0;
                &&& (data@.len() < 512 ==> e == FatFsError::TruncatedImage)
                &&& (data@.len() >= 512 && !crate::bpb::spec_bpb_valid(b) ==> e == FatFsError::Bpb(
                    crate::bpb::Bpb::spec_load_err(b),
                ))
                &&& (data@.len() >= 512 && crate::bpb::spec_bpb_valid(b) && !spec_cluster_cap_ok(b)
                    ==> e == FatFsError::TooManyClusters)
                &&& (data@.len() >= 512 && crate::bpb::spec_bpb_valid(b) && spec_cluster_cap_ok(b)
                    && spec_fat_offset_of(b) + spec_fat_len_of(b) > data@.len() ==> e
                    == FatFsError::TruncatedImage)
                &&& (data@.len() >= 512 && crate::bpb::spec_bpb_valid(b) && spec_cluster_cap_ok(b)
                    && spec_fat_offset_of(b) + spec_fat_len_of(b) <= data@.len()
                    && spec_fat_needed_of(b) > spec_fat_len_of(b) ==> e == FatFsError::FatTruncated)
                &&& (data@.len() >= 512 && crate::bpb::spec_bpb_valid(b) && spec_cluster_cap_ok(b)
                    && spec_fat_offset_of(b) + spec_fat_len_of(b) <= data@.len()
                    && spec_fat_needed_of(b) <= spec_fat_len_of(b) ==> e
                    == FatFsError::TruncatedImage)
            }),
    {
        let image_len: usize = data.len();

        if image_len < 512 {
            return Err(FatFsError::TruncatedImage);
        }

        let bpb = match crate::bpb::Bpb::load(&data.as_slice()[0..512]) {
            Ok(bpb) => bpb,
            Err(e) => {
                proof {
                    assert(data@.subrange(0, 512) == data@.subrange(0int, 512).subrange(0, 512));
                }
                return Err(FatFsError::Bpb(e));
            },
        };

        proof {
            assert(data@.subrange(0, 512) == data@.subrange(0int, 512).subrange(0, 512));
        }

        let max: u32 = bpb.count_of_clusters();

        if matches!(bpb.fat_type, FatType::Fat32) && max >= 0x0FFF_FFF6 {
            return Err(FatFsError::TooManyClusters);
        }

        let fat_offset: u64 = bpb.fat_offset();
        let fat_size: u64 = bpb.fat_len_bytes();

        if fat_offset > image_len as u64 || fat_size > image_len as u64 - fat_offset {
            return Err(FatFsError::TruncatedImage);
        }

        let fat_needed: u64 = match bpb.fat_type {
            FatType::Fat12 => (3 * (max as u64 + 1) + 1) / 2,
            FatType::Fat16 => 2 * (max as u64 + 1),
            FatType::Fat32 => 4 * (max as u64 + 1),
        };

        if fat_needed > fat_size {
            return Err(FatFsError::FatTruncated);
        }

        let (root_dir_offset, root_dir_size) = match bpb.root_directory_offset() {
            Some(root_off) => {
                let root_len: u64 = bpb.root_dir_len_bytes();
                if root_off > image_len as u64 || root_len > image_len as u64 - root_off {
                    return Err(FatFsError::TruncatedImage);
                }
                (Some(root_off), root_len as usize)
            },
            None => (None, 0usize),
        };

        let data_offset: u64 = bpb.data_offset();
        let data_size: u64 = bpb.data_len_bytes();

        if data_offset > image_len as u64 || data_size > image_len as u64 - data_offset {
            return Err(FatFsError::TruncatedImage);
        }

        let fat_bytes = &data.as_slice()[fat_offset as usize..(fat_offset + fat_size) as usize];
        let fat = crate::fat::Fat::new(bpb.fat_type, fat_bytes, max);

        let free_count_usize = fat.count_free_clusters();
        proof {
            crate::fat::lemma_free_in_bounds(fat.spec_entries(), 2, fat.spec_max() + 1);
        }
        let free_count: u32 = free_count_usize as u32;

        let bytes_per_cluster: usize = bpb.bytes_per_cluster();

        proof {
            let ds = bpb.spec_data_sectors();
            assert((max - 1) * (bytes_per_cluster as int) <= data_size as int) by (nonlinear_arith)
                requires
                    max as int == ds / (bpb.sectors_per_cluster as int),
                    bpb.sectors_per_cluster >= 1,
                    bpb.bytes_per_sector >= 1,
                    ds >= 0,
                    bytes_per_cluster as int == bpb.sectors_per_cluster as int
                        * bpb.bytes_per_sector as int,
                    data_size as int == ds * bpb.bytes_per_sector as int,
            ;
        }

        Ok(
            FatFs {
                inner: crate::slice_like::MemSlice::new(data),
                fat_offset,
                fat_size,
                root_dir_offset,
                root_dir_size,
                data_offset,
                data_size,
                bytes_per_cluster,
                bpb,
                fat,
                free_count,
                next_free: 2,
            },
        )
    }
    /// The cached count of free clusters.
    pub fn free_clusters(&self) -> (r: usize)
        requires
            self.wf(),
        ensures
            r == crate::fat::free_in(self.fat.spec_entries(), 2, self.spec_max() + 1),
    {
        self.free_count as usize
    }

    /// Bytes per sector of this volume.
    pub fn bytes_per_sector(&self) -> (r: u16)
        ensures
            r == self.bpb.bytes_per_sector,
    {
        self.bpb.bytes_per_sector()
    }

    /// Sectors per cluster of this volume.
    pub fn sectors_per_cluster(&self) -> (r: u8)
        ensures
            r == self.bpb.sectors_per_cluster,
    {
        self.bpb.sectors_per_cluster()
    }

    /// The FAT variant of this volume.
    pub fn fat_type(&self) -> (r: FatType)
        ensures
            r == self.bpb.fat_type,
    {
        self.bpb.fat_type()
    }

    /// The root directory's first cluster; present only on FAT32.
    pub fn root_cluster(&self) -> (r: Option<u32>)
        ensures
            r == match self.bpb.ext_bpb {
                crate::bpb::ExtBpb::ExtBpb32(e) => Some(e.root_cluster),
                crate::bpb::ExtBpb::ExtBpb16(_) => None::<u32>,
            },
    {
        self.bpb.root_cluster()
    }

    /// The next data cluster after `cluster`, `None` at the end of a
    /// chain, or a kinded error (see `Fat::get_next_cluster`).
    pub fn next_cluster(&self, cluster: u32) -> (r: Result<Option<u32>, crate::fat::FatError>)
        requires
            self.wf(),
        ensures
            r == self.fat.spec_next(cluster),
    {
        self.fat.get_next_cluster(cluster)
    }

    /// Byte offset of a data cluster.
    fn data_cluster_to_offset(&self, cluster: u32) -> (r: u64)
        requires
            self.wf(),
            2 <= cluster <= self.spec_max(),
        ensures
            r as int == self.spec_cluster_offset(cluster as int),
            r as int + self.bytes_per_cluster <= self.data_offset + self.data_size,
    {
        proof {
            assert((cluster - 2) * (self.bytes_per_cluster as int) + self.bytes_per_cluster <= (
            self.spec_max() - 1) * (self.bytes_per_cluster as int)) by (nonlinear_arith)
                requires
                    2 <= cluster <= self.spec_max(),
                    self.bytes_per_cluster >= 0,
            ;
        }
        self.data_offset + (cluster - 2) as u64 * self.bytes_per_cluster as u64
    }

    /// A read window over one cluster's bytes.  Cluster 0 marks an empty
    /// file or directory and yields an empty window.
    pub fn cluster_as_subslice(&self, cluster: u32) -> (r: crate::subslice::SubSlice)
        requires
            self.wf(),
            cluster == 0 || 2 <= cluster <= self.spec_max(),
        ensures
            cluster == 0 ==> r.len == 0,
            cluster != 0 ==> r.offset as int == self.spec_cluster_offset(cluster as int)
                && r.len == self.bytes_per_cluster,
            r.offset + r.len <= self.spec_image().len(),
    {
        if cluster == 0 {
            return crate::subslice::SubSlice::new(0, 0);
        }

        let offset = self.data_cluster_to_offset(cluster);

        crate::subslice::SubSlice::new(offset, self.bytes_per_cluster)
    }

    /// A write window over one cluster's bytes.  Cluster 0 yields an empty
    /// window.
    pub fn cluster_as_subslice_mut(&self, cluster: u32) -> (r: crate::subslice::SubSliceMut)
        requires
            self.wf(),
            cluster == 0 || 2 <= cluster <= self.spec_max(),
        ensures
            cluster == 0 ==> r.len == 0,
            cluster != 0 ==> r.offset as int == self.spec_cluster_offset(cluster as int)
                && r.len == self.bytes_per_cluster,
            r.offset + r.len <= self.spec_image().len(),
    {
        if cluster == 0 {
            return crate::subslice::SubSliceMut::new(0, 0);
        }

        let offset = self.data_cluster_to_offset(cluster);

        crate::subslice::SubSliceMut::new(offset, self.bytes_per_cluster)
    }

    /// A read window over the fixed root directory of a FAT12 or FAT16
    /// volume.
    pub fn root_dir_as_subslice(&self) -> (r: crate::subslice::SubSlice)
        requires
            self.wf(),
            self.bpb.fat_type != FatType::Fat32,
        ensures
            r.offset as int == self.bpb.spec_root_dir_offset(),
            r.len == self.root_dir_size,
            r.offset + r.len <= self.spec_image().len(),
    {
        match self.root_dir_offset {
            Some(offset) => crate::subslice::SubSlice::new(offset, self.root_dir_size),
            None => crate::subslice::SubSlice::new(0, 0),  // unreachable under the precondition
        }
    }

    /// A write window over the fixed root directory of a FAT12 or FAT16
    /// volume.
    pub fn root_dir_as_subslice_mut(&self) -> (r: crate::subslice::SubSliceMut)
        requires
            self.wf(),
            self.bpb.fat_type != FatType::Fat32,
        ensures
            r.offset as int == self.bpb.spec_root_dir_offset(),
            r.len == self.root_dir_size,
            r.offset + r.len <= self.spec_image().len(),
    {
        match self.root_dir_offset {
            Some(offset) => crate::subslice::SubSliceMut::new(offset, self.root_dir_size),
            None => crate::subslice::SubSliceMut::new(0, 0),  // unreachable under the precondition
        }
    }

    /// Reads up to `n` bytes from the front of a window and advances it.
    /// The bytes come from the image at the window's offset; a drained
    /// window yields nothing.
    pub fn read_window(&self, w: &mut crate::subslice::SubSlice, n: usize) -> (r: Vec<u8>)
        requires
            old(w).offset + old(w).len <= self.spec_image().len(),
        ensures
            ({
                let take = if n <= old(w).len {
                    n as int
                } else {
                    old(w).len as int
                };
                &&& r@ == self.spec_image().subrange(
                    old(w).offset as int,
                    old(w).offset + take,
                )
                &&& final(w).offset == old(w).offset + take
                &&& final(w).len == old(w).len - take
                &&& final(w).offset + final(w).len == old(w).offset + old(w).len
            }),
    {
        let image_len: usize = self.inner.len();
        proof {
            assert(old(w).offset + old(w).len <= image_len);
        }
        let take = if n <= w.len() {
            n
        } else {
            w.len()
        };

        let r = match self.inner.read_exact_at(w.offset(), take) {
            Ok(bytes) => bytes,
            Err(_) => {
                proof {
                    assert(false);
                }
                Vec::new()
            },
        };

        w.skip(take);

        r
    }

    /// Writes the front of `buf` onto the front of a window, advancing the
    /// window; accepts at most the window's remaining length and reports
    /// how many bytes it took.  Nothing but the addressed image bytes
    /// changes.
    pub fn write_window(
        &mut self,
        w: &mut crate::subslice::SubSliceMut,
        buf: &[u8],
    ) -> (r: usize)
        requires
            old(w).offset + old(w).len <= old(self).spec_image().len(),
        ensures
            ({
                let put = if buf@.len() <= old(w).len {
                    buf@.len() as int
                } else {
                    old(w).len as int
                };
                &&& r == put
                &&& final(self).spec_image() == crate::slice_like::overwrite(
                    old(self).spec_image(),
                    old(w).offset as int,
                    buf@.take(put),
                )
                &&& final(w).offset == old(w).offset + put
                &&& final(w).len == old(w).len - put
                &&& final(w).offset + final(w).len == old(w).offset + old(w).len
                &&& final(self).bpb == old(self).bpb
                &&& final(self).fat == old(self).fat
                &&& final(self).free_count == old(self).free_count
                &&& final(self).next_free == old(self).next_free
                &&& final(self).fat_offset == old(self).fat_offset
                &&& final(self).fat_size == old(self).fat_size
                &&& final(self).root_dir_offset == old(self).root_dir_offset
                &&& final(self).root_dir_size == old(self).root_dir_size
                &&& final(self).data_offset == old(self).data_offset
                &&& final(self).data_size == old(self).data_size
                &&& final(self).bytes_per_cluster == old(self).bytes_per_cluster
                &&& (old(self).wf() ==> final(self).wf())
            }),
    {
        let image_len: usize = self.inner.len();
        proof {
            assert(old(w).offset + old(w).len <= image_len);
        }
        let put = if buf.len() <= w.len() {
            buf.len()
        } else {
            w.len()
        };

        let res = self.inner.write_all_at(w.offset(), &buf[0..put]);

        proof {
            assert(res is Ok);
            assert(buf@.subrange(0, put as int) == buf@.take(put as int));
        }

        w.skip(put);

        put
    }
    /// Allocates one free cluster, marking its entry as end of chain and
    /// updating the free count and the next-free hint.  Succeeds exactly
    /// when a free cluster exists; nothing changes on failure.  The
    /// allocation is all or nothing.
    pub fn allocate(&mut self) -> (r: Option<u32>)
        requires
            old(self).wf(),
        ensures
            final(self).wf(),
            old(self).free_count == 0 ==> r is None && *final(self) == *old(self),
            old(self).free_count != 0 ==> r is Some && ({
                let c = r->Some_0;
                &&& 2 <= c <= old(self).spec_max()
                &&& old(self).fat.spec_entries()[c as int] == 0
                &&& final(self).fat.spec_entries() == old(self).fat.spec_entries().update(
                    c as int,
                    old(self).fat.spec_eof(),
                )
                &&& final(self).free_count == old(self).free_count - 1
                &&& final(self).spec_image() == old(self).spec_image()
                &&& final(self).bpb == old(self).bpb
                &&& final(self).spec_max() == old(self).spec_max()
            }),
    {
        if self.free_count == 0 {
            return None;
        }

        let max = self.fat.valid_clusters().1;
        let ghost entries = self.fat.spec_entries();

        let start: u32 = if 2 <= self.next_free && self.next_free <= max {
            self.next_free
        } else {
            2
        };

        let mut found: Option<u32> = None;

        let mut c: u32 = start;
        while c <= max && found.is_none()
            invariant
                self.wf(),
                *self == *old(self),
                entries == self.fat.spec_entries(),
                max == self.spec_max(),
                2 <= start <= max || start == 2,
                start <= c <= max + 1,
                found is Some ==> 2 <= found->0 <= max && entries[found->0 as int] == 0,
                found is None ==> forall|t: int| start <= t < c ==> entries[t] != 0,
            decreases max + 1 - c, (if found.is_none() { 1int } else { 0int }),
        {
            if self.fat.get_entry(c) == 0 {
                found = Some(c);
            } else {
                c += 1;
            }
        }

        if found.is_none() {
            let mut c2: u32 = 2;
            while c2 < start && found.is_none()
                invariant
                    self.wf(),
                    *self == *old(self),
                    entries == self.fat.spec_entries(),
                    max == self.spec_max(),
                    2 <= start <= max + 1,
                    2 <= c2 <= start,
                    forall|t: int| start <= t < max + 1 ==> entries[t] != 0,
                    found is Some ==> 2 <= found->0 <= max && entries[found->0 as int] == 0,
                    found is None ==> forall|t: int| 2 <= t < c2 ==> entries[t] != 0,
                decreases start - c2, (if found.is_none() { 1int } else { 0int }),
            {
                if self.fat.get_entry(c2) == 0 {
                    found = Some(c2);
                } else {
                    c2 += 1;
                }
            }
        }

        let c = match found {
            Some(c) => c,
            None => {
                proof {
                    crate::fat::lemma_free_in_split(entries, 2, start as int, max + 1);
                    crate::fat::lemma_free_in_none(entries, 2, start as int);
                    crate::fat::lemma_free_in_none(entries, start as int, max + 1);
                    assert(false);
                }
                return None;
            },
        };

        let eof = self.fat.eof_cluster();
        self.fat.set_entry(c, eof);

        proof {
            crate::fat::lemma_free_in_update(entries, 2, max + 1, c as int, eof);
        }

        self.free_count = self.free_count - 1;
        self.next_free = if c < max {
            c + 1
        } else {
            2
        };

        Some(c)
    }

    /// Frees an allocated cluster: clears its entry, raises the free count
    /// and lowers the next-free hint.
    pub fn free(&mut self, cluster: u32) -> (r: ())
        requires
            old(self).wf(),
            2 <= cluster <= old(self).spec_max(),
            old(self).fat.spec_entries()[cluster as int] != 0,
        ensures
            final(self).wf(),
            final(self).fat.spec_entries() == old(self).fat.spec_entries().update(
                cluster as int,
                0u32,
            ),
            final(self).free_count == old(self).free_count + 1,
            final(self).spec_image() == old(self).spec_image(),
            final(self).bpb == old(self).bpb,
            final(self).spec_max() == old(self).spec_max(),
    {
        let ghost entries = self.fat.spec_entries();
        let ghost max = self.spec_max();

        self.fat.set_entry(cluster, 0);

        proof {
            crate::fat::lemma_free_in_update(entries, 2, max as int + 1, cluster as int, 0);
            crate::fat::lemma_free_in_bounds(entries, 2, max as int + 1);
        }

        self.free_count = self.free_count + 1;

        if cluster < self.next_free {
            self.next_free = cluster;
        }
    }

    /// Writes the encoded FAT back over every one of the volume's FAT
    /// copies; writing only the primary copy would leave the redundant
    /// copies stale.  Nothing else of the image changes.
    pub fn flush_fat(&mut self) -> (r: Result<(), crate::slice_like::IoError>)
        requires
            old(self).wf(),
        ensures
            final(self).wf(),
            r is Ok,
            final(self).spec_image() == flushed_image(
                old(self).spec_image(),
                old(self).fat_offset as int,
                old(self).fat_size as int,
                old(self).fat.spec_encoded(),
                old(self).bpb.num_fats as int,
            ),
            final(self).fat == old(self).fat,
            final(self).bpb == old(self).bpb,
            final(self).free_count == old(self).free_count,
            final(self).next_free == old(self).next_free,
    {
        let encoded = self.fat.encode();
        let ghost img0 = self.spec_image();
        let num_fats: u8 = self.bpb.num_fats;

        let mut i: u8 = 0;
        while i < num_fats
            invariant
                self.wf(),
                i <= num_fats,
                num_fats == self.bpb.num_fats,
                encoded@ == self.fat.spec_encoded(),
                self.fat == old(self).fat,
                self.bpb == old(self).bpb,
                self.free_count == old(self).free_count,
                self.next_free == old(self).next_free,
                self.fat_offset == old(self).fat_offset,
                self.fat_size == old(self).fat_size,
                self.root_dir_offset == old(self).root_dir_offset,
                self.root_dir_size == old(self).root_dir_size,
                self.data_offset == old(self).data_offset,
                self.data_size == old(self).data_size,
                self.bytes_per_cluster == old(self).bytes_per_cluster,
                img0 == old(self).spec_image(),
                self.spec_image() == flushed_image(
                    img0,
                    self.fat_offset as int,
                    self.fat_size as int,
                    encoded@,
                    i as int,
                ),
                self.spec_image().len() == img0.len(),
            decreases num_fats - i,
        {
            let image_len: usize = self.inner.len();
            proof {
                let bps = self.bpb.bytes_per_sector as int;
                let reserved = self.bpb.reserved_sector_count as int;
                let nf = self.bpb.num_fats as int;
                let fatsz = self.bpb.spec_fat_size();
                let rec = self.bpb.root_entry_count as int;
                assert(self.fat_offset as int + (i as int) * (self.fat_size as int) + (
                self.fat_size as int) <= self.data_offset as int) by (nonlinear_arith)
                    requires
                        self.fat_offset as int == reserved * bps,
                        self.fat_size as int == fatsz * bps,
                        self.data_offset as int == (reserved + nf * fatsz + (32 * rec + bps - 1)
                            / bps) * bps,
                        i as int + 1 <= nf,
                        bps >= 1,
                        fatsz >= 0,
                        rec >= 0,
                        reserved >= 0,
                ;
            }
            let off: u64 = self.fat_offset + (i as u64) * self.fat_size;
            let res = self.inner.write_all_at(off, encoded.as_slice());
            proof {
                assert(res is Ok);
            }
            i += 1;
        }

        Ok(())
    }

    /// An iterator over the root directory's entries.
    pub fn root_dir_iter(&self) -> (r: crate::dir::DirIter)
        requires
            self.wf(),
        ensures
            r.wf(*self),
            r.long_filename_buf.checksum is None,
            r.slots_left == 0x10000,
            self.bpb.fat_type != FatType::Fat32 ==> r.reader.sub_slice.offset as int
                == self.bpb.spec_root_dir_offset() && r.reader.sub_slice.len == self.root_dir_size
                && r.reader.next_cluster is None,
            self.bpb.fat_type == FatType::Fat32 ==> ({
                let rc = match self.bpb.ext_bpb {
                    crate::bpb::ExtBpb::ExtBpb32(e) => e.root_cluster,
                    crate::bpb::ExtBpb::ExtBpb16(_) => 0u32,
                };
                &&& (2 <= rc <= self.spec_max() ==> r.reader.sub_slice.offset as int
                    == self.spec_cluster_offset(rc as int) && r.reader.sub_slice.len
                    == self.bytes_per_cluster && r.reader.next_cluster
                    == crate::iter::next_or_none(*self, rc))
                &&& (!(2 <= rc <= self.spec_max()) ==> r.reader.sub_slice.len == 0
                    && r.reader.next_cluster is None)
            }),
    {
        crate::dir::DirIter::new(crate::iter::ClusterChainReader::root_dir_reader(self))
    }

    /// An iterator over the entries of the directory whose chain starts at
    /// `first_cluster`; cluster 0 marks an empty directory.
    pub fn dir_iter(&self, first_cluster: u32) -> (r: crate::dir::DirIter)
        requires
            self.wf(),
            first_cluster == 0 || 2 <= first_cluster <= self.spec_max(),
        ensures
            r.wf(*self),
            r.long_filename_buf.checksum is None,
            r.slots_left == 0x10000,
            first_cluster == 0 ==> r.reader.sub_slice.len == 0,
            first_cluster != 0 ==> r.reader.sub_slice.offset as int == self.spec_cluster_offset(
                first_cluster as int,
            ) && r.reader.sub_slice.len == self.bytes_per_cluster,
            r.reader.next_cluster == crate::iter::next_or_none(*self, first_cluster),
    {
        crate::dir::DirIter::new(crate::iter::ClusterChainReader::new(self, first_cluster))
    }

    /// A reader over the file whose chain starts at `first_cluster`.
    pub fn file_reader(&self, first_cluster: u32) -> (r: crate::iter::ClusterChainReader)
        requires
            self.wf(),
            2 <= first_cluster <= self.spec_max(),
        ensures
            r.wf(*self),
            r.sub_slice.offset as int == self.spec_cluster_offset(first_cluster as int),
            r.sub_slice.len == self.bytes_per_cluster,
            r.next_cluster == crate::iter::next_or_none(*self, first_cluster),
    {
        crate::iter::ClusterChainReader::new(self, first_cluster)
    }

    /// A writer over the file whose chain starts at `first_cluster`.
    pub fn file_writer(&self, first_cluster: u32) -> (r: crate::iter::ClusterChainWriter)
        requires
            self.wf(),
            2 <= first_cluster <= self.spec_max(),
        ensures
            r.wf(*self),
            r.sub_slice.offset as int == self.spec_cluster_offset(first_cluster as int),
            r.sub_slice.len == self.bytes_per_cluster,
            r.current_cluster == Some(first_cluster),
            r.next_cluster == crate::iter::next_or_none(*self, first_cluster),
    {
        crate::iter::ClusterChainWriter::new(self, first_cluster)
    }

    /// Walks the whole chain that starts at `first_cluster`.  On success
    /// the clusters come back in walk order: they form a well-formed chain
    /// (`wf_chain`), so the walk visited each cluster at most once and
    /// stopped at an end-of-chain entry.  The walk fails with the FAT's
    /// error when a link is free, reserved, defective or out of range, and
    /// with an invalid-entry error naming the revisited cluster when the
    /// links close a cycle.
    pub fn chain_clusters(&self, first_cluster: u32) -> (r: Result<
        Vec<u32>,
        crate::fat::FatError,
    >)
        requires
            self.wf(),
            2 <= first_cluster <= self.spec_max(),
        ensures
            r is Ok ==> wf_chain(self.fat, first_cluster, r->Ok_0@),
            r is Ok <==> exists|cs: Seq<u32>| wf_chain(self.fat, first_cluster, cs),
    {
        let max = self.fat.valid_clusters().1;

        let mut visited: Vec<bool> = Vec::new();
        let mut k: u32 = 0;
        while k <= max
            invariant
                max < 0x0FFF_FFF6,
                k <= max + 1,
                visited@.len() == k,
                falses_in(visited@, 0, k as int) == k,
                forall|x: int| 0 <= x < k ==> !visited@[x],
            decreases max + 1 - k,
        {
            proof {
                lemma_falses_in_agree(visited@, visited@.push(false), 0, k as int);
            }
            visited.push(false);
            k += 1;
        }

        let mut clusters: Vec<u32> = Vec::new();
        proof {
            lemma_falses_in_update(visited@, 0, max + 1, first_cluster as int, true);
        }
        visited.set(first_cluster as usize, true);
        clusters.push(first_cluster);

        let mut cur: u32 = first_cluster;

        proof {
            assert forall|x: int| 0 <= x <= max implies (visited@[x] <==> exists|i: int|
                0 <= i < clusters@.len() && clusters@[i] == x) by {
                if x == first_cluster {
                    assert(clusters@[0] == x);
                } else {
                    if exists|i: int| 0 <= i < clusters@.len() && clusters@[i] == x {
                        let i = choose|i: int| 0 <= i < clusters@.len() && clusters@[i] == x;
                        assert(i == 0);
                    }
                }
            }
        }

        loop
            invariant
                self.wf(),
                max == self.spec_max(),
                visited@.len() == max + 1,
                clusters@.len() >= 1,
                clusters@[0] == first_cluster,
                cur == clusters@.last(),
                2 <= cur <= max,
                forall|i: int|
                    0 <= i < clusters@.len() - 1 ==> self.fat.spec_next(clusters@[i]) == Ok::<
                        Option<u32>,
                        crate::fat::FatError,
                    >(Some(clusters@[i + 1])),
                forall|i: int| 0 <= i < clusters@.len() ==> 2 <= #[trigger] clusters@[i] <= max,
                forall|i: int, j: int|
                    0 <= i < j < clusters@.len() ==> clusters@[i] != clusters@[j],
                forall|x: int|
                    0 <= x <= max ==> (visited@[x] <==> exists|i: int|
                        0 <= i < clusters@.len() && clusters@[i] == x),
                falses_in(visited@, 0, max + 1) == max + 1 - clusters@.len(),
            decreases falses_in(visited@, 0, max + 1),
        {
            let step = self.fat.get_next_cluster(cur);

            match step {
                Err(e) => {
                    proof {
                        lemma_prefix_refutes_chain(self.fat, first_cluster, clusters@);
                    }
                    return Err(e);
                },
                Ok(None) => {
                    proof {
                        assert(wf_chain(self.fat, first_cluster, clusters@));
                    }
                    return Ok(clusters);
                },
                Ok(Some(n)) => {
                    if visited[n as usize] {
                        proof {
                            let j = choose|j: int|
                                0 <= j < clusters@.len() && clusters@[j] == n;
                            assert(self.fat.spec_next(clusters@.last()) == Ok::<
                                Option<u32>,
                                crate::fat::FatError,
                            >(Some(clusters@[j])));
                            lemma_prefix_refutes_chain(self.fat, first_cluster, clusters@);
                        }
                        return Err(crate::fat::FatError::InvalidEntry(n));
                    }
                    let ghost cl0 = clusters@;
                    let ghost vis0 = visited@;
                    proof {
                        lemma_falses_in_split(visited@, 0, n as int, max + 1);
                        lemma_falses_in_split(visited@, n as int, n as int + 1, max + 1);
                        lemma_falses_in_bounds(visited@, 0, n as int);
                        lemma_falses_in_bounds(visited@, n as int, n as int);
                        lemma_falses_in_bounds(visited@, n as int + 1, max + 1);
                        assert(falses_in(visited@, n as int, n as int + 1) == 1);
                        lemma_falses_in_update(visited@, 0, max + 1, n as int, true);
                        assert forall|i: int| 0 <= i < cl0.len() implies cl0[i] != n by {
                            if cl0[i] == n {
                                assert(vis0[n as int]);
                            }
                        }
                    }
                    visited.set(n as usize, true);
                    clusters.push(n);
                    cur = n;
                    proof {
                        assert forall|x: int| 0 <= x <= max implies (visited@[x] <==> exists|i: int|
                            0 <= i < clusters@.len() && clusters@[i] == x) by {
                            if x == n {
                                assert(clusters@[clusters@.len() - 1] == x);
                            } else {
                                assert(visited@[x] == vis0[x]);
                                if vis0[x] {
                                    let i = choose|i: int| 0 <= i < cl0.len() && cl0[i] == x;
                                    assert(clusters@[i] == x);
                                }
                                if exists|i: int|
                                    0 <= i < clusters@.len() && clusters@[i] == x {
                                    let i = choose|i: int|
                                        0 <= i < clusters@.len() && clusters@[i] == x;
                                    assert(i < cl0.len());
                                    assert(cl0[i] == x);
                                }
                            }
                        }
                        assert(falses_in(visited@, 0, max + 1) == falses_in(vis0, 0, max + 1) - 1);
                        assert(falses_in(visited@, 0, max + 1) >= 0);
                    }
                },
            }
        }
    }
}


/// The image after the encoded FAT has been written over its first
/// `copies` copy regions.
pub open spec fn flushed_image(
    img: Seq<u8>,
    off: int,
    size: int,
    enc: Seq<u8>,
    copies: int,
) -> Seq<u8>
    decreases copies,
{
    if copies <= 0 {
        img
    } else {
        crate::slice_like::overwrite(
            flushed_image(img, off, size, enc, copies - 1),
            off + (copies - 1) * size,
            enc,
        )
    }
}

/// Number of false entries among indices `lo` (inclusive) to `hi`
/// (exclusive).
pub open spec fn falses_in(v: Seq<bool>, lo: int, hi: int) -> int
    decreases hi - lo,
{
    if hi <= lo {
        0
    } else {
        falses_in(v, lo, hi - 1) + if v[hi - 1] {
            0int
        } else {
            1int
        }
    }
}

/// The false count lies between zero and the width of the counted range.
pub proof fn lemma_falses_in_bounds(v: Seq<bool>, lo: int, hi: int)
    ensures
        0 <= falses_in(v, lo, hi),
        hi >= lo ==> falses_in(v, lo, hi) <= hi - lo,
        hi < lo ==> falses_in(v, lo, hi) == 0,
    decreases hi - lo,
{
    if hi > lo {
        lemma_falses_in_bounds(v, lo, hi - 1);
    }
}

/// Two flag rows that agree on a range have the same false count over it.
pub proof fn lemma_falses_in_agree(v1: Seq<bool>, v2: Seq<bool>, lo: int, hi: int)
    requires
        forall|i: int| lo <= i < hi ==> v1[i] == v2[i],
    ensures
        falses_in(v1, lo, hi) == falses_in(v2, lo, hi),
    decreases hi - lo,
{
    if hi > lo {
        lemma_falses_in_agree(v1, v2, lo, hi - 1);
    }
}

/// A false count over a split range is the sum over its parts.
pub proof fn lemma_falses_in_split(v: Seq<bool>, lo: int, mid: int, hi: int)
    requires
        lo <= mid <= hi,
    ensures
        falses_in(v, lo, hi) == falses_in(v, lo, mid) + falses_in(v, mid, hi),
    decreases hi - mid,
{
    if hi > mid {
        lemma_falses_in_split(v, lo, mid, hi - 1);
    }
}

/// How one updated flag moves the false count.
pub proof fn lemma_falses_in_update(v: Seq<bool>, lo: int, hi: int, c: int, b: bool)
    requires
        0 <= lo,
        hi <= v.len(),
        lo <= c < hi,
    ensures
        falses_in(v.update(c, b), lo, hi) == falses_in(v, lo, hi) - (if v[c] {
            0int
        } else {
            1int
        }) + (if b {
            0int
        } else {
            1int
        }),
    decreases hi - lo,
{
    let v2 = v.update(c, b);
    if c == hi - 1 {
        lemma_falses_in_agree(v, v2, lo, hi - 1);
    } else {
        lemma_falses_in_update(v, lo, hi - 1, c, b);
    }
}

/// A well-formed cluster chain: it starts at `first`, each link is what
/// the FAT stores for the cluster before it, it ends at a cluster whose
/// entry marks end of chain, it visits no cluster twice, and every member
/// is a valid data cluster.
pub open spec fn wf_chain(fat: crate::fat::Fat, first: u32, cs: Seq<u32>) -> bool {
    &&& cs.len() >= 1
    &&& cs[0] == first
    &&& forall|i: int|
        0 <= i < cs.len() - 1 ==> fat.spec_next(cs[i]) == Ok::<Option<u32>, crate::fat::FatError>(
            Some(cs[i + 1]),
        )
    &&& fat.spec_next(cs.last()) == Ok::<Option<u32>, crate::fat::FatError>(None)
    &&& forall|i: int, j: int| 0 <= i < j < cs.len() ==> cs[i] != cs[j]
    &&& forall|i: int| 0 <= i < cs.len() ==> 2 <= #[trigger] cs[i] <= fat.spec_max()
}

/// A well-formed chain follows the forced path: wherever a linked walk
/// prefix and a well-formed chain both reach position `i`, they hold the
/// same cluster.
proof fn lemma_wf_chain_match(
    fat: crate::fat::Fat,
    first: u32,
    cs: Seq<u32>,
    p: Seq<u32>,
    i: int,
)
    requires
        wf_chain(fat, first, cs),
        p.len() >= 1,
        p[0] == first,
        forall|t: int|
            0 <= t < p.len() - 1 ==> fat.spec_next(p[t]) == Ok::<Option<u32>, crate::fat::FatError>(
                Some(p[t + 1]),
            ),
        0 <= i < p.len(),
        i < cs.len(),
    ensures
        cs[i] == p[i],
    decreases i,
{
    if i > 0 {
        lemma_wf_chain_match(fat, first, cs, p, i - 1);
        assert(fat.spec_next(p[i - 1]) == Ok::<Option<u32>, crate::fat::FatError>(Some(p[i])));
        assert(fat.spec_next(cs[i - 1]) == Ok::<Option<u32>, crate::fat::FatError>(Some(cs[i])));
    } else {
        assert(cs[0] == first);
        assert(p[0] == first);
    }
}

/// A linked walk prefix whose last step fails, or leads back into the
/// prefix, rules out every well-formed chain from the same head.
proof fn lemma_prefix_refutes_chain(fat: crate::fat::Fat, first: u32, p: Seq<u32>)
    requires
        p.len() >= 1,
        p[0] == first,
        forall|t: int|
            0 <= t < p.len() - 1 ==> fat.spec_next(p[t]) == Ok::<Option<u32>, crate::fat::FatError>(
                Some(p[t + 1]),
            ),
        fat.spec_next(p.last()) is Err || (exists|j: int|
            0 <= j < p.len() && fat.spec_next(p.last()) == Ok::<Option<u32>, crate::fat::FatError>(
                Some(#[trigger] p[j]),
            )),
    ensures
        !exists|cs: Seq<u32>| wf_chain(fat, first, cs),
{
    assert forall|cs: Seq<u32>| !wf_chain(fat, first, cs) by {
        if wf_chain(fat, first, cs) {
            let m = if p.len() <= cs.len() {
                p.len() as int
            } else {
                cs.len() as int
            };
            assert forall|i: int| 0 <= i < m implies cs[i] == p[i] by {
                lemma_wf_chain_match(fat, first, cs, p, i);
            }
            if p.len() < cs.len() {
                // the chain continues past the prefix, so the prefix's last
                // step succeeded with the chain's next cluster
                assert(cs[p.len() - 1] == p[p.len() - 1]);
                assert(fat.spec_next(cs[p.len() - 1]) == Ok::<
                    Option<u32>,
                    crate::fat::FatError,
                >(Some(cs[p.len() as int])));
                if exists|j: int|
                    0 <= j < p.len() && fat.spec_next(p.last()) == Ok::<
                        Option<u32>,
                        crate::fat::FatError,
                    >(Some(#[trigger] p[j])) {
                    let j = choose|j: int|
                        0 <= j < p.len() && fat.spec_next(p.last()) == Ok::<
                            Option<u32>,
                            crate::fat::FatError,
                        >(Some(#[trigger] p[j]));
                    // the chain would visit that cluster twice
                    assert(cs[j] == p[j]);
                    assert(cs[j] == cs[p.len() as int]);
                }
            } else if p.len() == cs.len() {
                // the chain ends where the prefix's last step did not
                assert(cs[p.len() - 1] == p[p.len() - 1]);
                assert(fat.spec_next(cs.last()) == Ok::<Option<u32>, crate::fat::FatError>(None));
            } else {
                // the chain ends inside the prefix, where the walk still
                // found a next cluster
                assert(cs[cs.len() - 1] == p[cs.len() - 1]);
                assert(fat.spec_next(p[cs.len() - 1]) == Ok::<Option<u32>, crate::fat::FatError>(
                    Some(p[cs.len() as int]),
                ));
                assert(fat.spec_next(cs.last()) == Ok::<Option<u32>, crate::fat::FatError>(None));
            }
            assert(false);
        }
    }
}

/// Law: a chain of `k` clusters is exactly as long as the per-cluster
/// ceiling of a size it can carry: when a file of `size` bytes fills its
/// last cluster partly or fully and every earlier cluster fully, the
/// visited count `k` equals `size` divided by the cluster size, rounded
/// up.
pub proof fn lemma_chain_count_matches_size(k: int, size: int, bpc: int)
    requires
        bpc >= 1,
        k >= 0,
        size >= 0,
        (k - 1) * bpc < size <= k * bpc,
    ensures
        k == (size + bpc - 1) / bpc,
{
    assert(k == (size + bpc - 1) / bpc) by (nonlinear_arith)
        requires
            bpc >= 1,
            k >= 0,
            size >= 0,
            (k - 1) * bpc < size <= k * bpc,
    ;
}

/// Law: the walk of a well-formed chain that carries a file visits
/// exactly the ceiling of the file's size over the cluster size.  The
/// file must use its storage the way a FAT file does: every cluster but
/// the last filled whole, the last filled at least one byte.
pub proof fn lemma_chain_covers_file(
    fat: crate::fat::Fat,
    first: u32,
    cs: Seq<u32>,
    size: int,
    bpc: int,
)
    requires
        wf_chain(fat, first, cs),
        bpc >= 1,
        size >= 0,
        (cs.len() - 1) * bpc < size <= cs.len() * bpc,
    ensures
        cs.len() == (size + bpc - 1) / bpc,
{
    lemma_chain_count_matches_size(cs.len() as int, size, bpc);
}

} // verus!
