//! Cluster-chain streams: sequential readers and writers over the chain of
//! clusters that holds a file or directory.
//!
//! A stream owns a byte window into the current cluster and a lookahead on
//! the next one.  It serves from the window until that drains, then re-homes
//! to the next cluster's window after a FAT lookup.  The volume performs the
//! byte transfers, so every operation takes the volume as an argument.

use vstd::prelude::*;

use crate::FatFs;
use crate::FatType;
use crate::fat::FatOps;
use crate::subslice::{SubSlice, SubSliceMut};

verus! {

/// What the stream's lookahead holds after asking the FAT for the cluster
/// after `c`: the next data cluster, or nothing at the end of a chain or on
/// any chain error.
pub open spec fn next_or_none(fs: FatFs, c: u32) -> Option<u32> {
    match fs.fat.spec_next(c) {
        Ok(o) => o,
        Err(_) => None,
    }
}

/// The bytes a stream can still yield: its window's remainder plus one
/// whole cluster for every chain link its lookahead reaches, following at
/// most `fuel` links.  A walk longer than the volume has clusters is
/// cyclic; the streams stop there, and so does this count.
pub open spec fn stream_bytes(fs: FatFs, len: int, next: Option<u32>, fuel: int) -> int
    decreases fuel,
{
    if next is None || fuel <= 0 {
        len
    } else {
        len + stream_bytes(
            fs,
            fs.bytes_per_cluster as int,
            next_or_none(fs, next->0),
            fuel - 1,
        )
    }
}

/// The stream count is at least the window's remainder.
proof fn lemma_stream_bytes_nonneg(fs: FatFs, len: int, next: Option<u32>, fuel: int)
    requires
        len >= 0,
    ensures
        stream_bytes(fs, len, next, fuel) >= len,
    decreases fuel,
{
    if next is Some && fuel > 0 {
        lemma_stream_bytes_nonneg(
            fs,
            fs.bytes_per_cluster as int,
            next_or_none(fs, next->0),
            fuel - 1,
        );
    }
}

/// Draining the window takes exactly its remainder off the stream count.
proof fn lemma_stream_bytes_drain(fs: FatFs, len: int, next: Option<u32>, fuel: int)
    ensures
        stream_bytes(fs, len, next, fuel) == len + stream_bytes(fs, 0, next, fuel),
{
}

/// A sequential reader over a cluster chain (or over the fixed root
/// directory of a FAT12 or FAT16 volume).
pub struct ClusterChainReader {
    pub sub_slice: SubSlice,
    pub next_cluster: Option<u32>,
}

impl ClusterChainReader {
    /// The stream's window and lookahead fit the volume.
    pub open spec fn wf(self, fs: FatFs) -> bool {
        &&& self.sub_slice.offset + self.sub_slice.len <= fs.spec_image().len()
        &&& (self.next_cluster is Some ==> 2 <= self.next_cluster->0 <= fs.spec_max())
    }

    /// The stream has nothing more to yield.
    pub open spec fn at_eof(self) -> bool {
        self.sub_slice.len == 0 && self.next_cluster is None
    }

    /// A reader over the chain that starts at `first_cluster`.  Cluster 0
    /// (the marker of an empty file) yields an immediately drained stream.
    pub fn new(fs: &FatFs, first_cluster: u32) -> (r: ClusterChainReader)
        requires
            fs.wf(),
            first_cluster == 0 || 2 <= first_cluster <= fs.spec_max(),
        ensures
            r.wf(*fs),
            first_cluster == 0 ==> r.sub_slice.len == 0,
            first_cluster != 0 ==> r.sub_slice.offset as int == fs.spec_cluster_offset(
                first_cluster as int,
            ) && r.sub_slice.len == fs.bytes_per_cluster,
            r.next_cluster == next_or_none(*fs, first_cluster),
    {
        let next_cluster = match fs.next_cluster(first_cluster) {
            Ok(next) => next,
            Err(_) => None,
        };

        let sub_slice = fs.cluster_as_subslice(first_cluster);

        ClusterChainReader { sub_slice, next_cluster }
    }

    /// A reader over the root directory: the fixed region on FAT12 and
    /// FAT16, the chain at the BPB's root cluster on FAT32.  A FAT32 root
    /// cluster outside the valid range yields a drained stream.
    pub fn root_dir_reader(fs: &FatFs) -> (r: ClusterChainReader)
        requires
            fs.wf(),
        ensures
            r.wf(*fs),
            fs.bpb.fat_type != FatType::Fat32 ==> r.sub_slice.offset as int
                == fs.bpb.spec_root_dir_offset() && r.sub_slice.len == fs.root_dir_size
                && r.next_cluster is None,
            fs.bpb.fat_type == FatType::Fat32 ==> ({
                let rc = match fs.bpb.ext_bpb {
                    crate::bpb::ExtBpb::ExtBpb32(e) => e.root_cluster,
                    crate::bpb::ExtBpb::ExtBpb16(_) => 0u32,
                };
                &&& (2 <= rc <= fs.spec_max() ==> r.sub_slice.offset as int
                    == fs.spec_cluster_offset(rc as int) && r.sub_slice.len
                    == fs.bytes_per_cluster && r.next_cluster == next_or_none(*fs, rc))
                &&& (!(2 <= rc <= fs.spec_max()) ==> r.sub_slice.len == 0 && r.next_cluster
                    is None)
            }),
    {
        if !matches!(fs.fat_type(), FatType::Fat32) {
            let sub_slice = fs.root_dir_as_subslice();

            return ClusterChainReader { sub_slice, next_cluster: None };
        }

        let root_cluster = match fs.root_cluster() {
            Some(c) => c,
            None => 0,
        };

        let max = fs.fat.valid_clusters().1;

        if root_cluster != 0 && (root_cluster < 2 || root_cluster > max) {
            return ClusterChainReader { sub_slice: SubSlice::new(0, 0), next_cluster: None };
        }

        Self::new(fs, root_cluster)
    }

    /// Reads up to `n` bytes.  A drained window re-homes to the next
    /// cluster first; an empty result means end of stream.  The bytes come
    /// from the image at the position the stream had; the stream advances
    /// past them.
    pub fn read(&mut self, fs: &FatFs, n: usize) -> (r: Vec<u8>)
        requires
            fs.wf(),
            old(self).wf(*fs),
        ensures
            final(self).wf(*fs),
            old(self).sub_slice.len != 0 ==> ({
                let take = if n <= old(self).sub_slice.len {
                    n as int
                } else {
                    old(self).sub_slice.len as int
                };
                &&& r@ == fs.spec_image().subrange(
                    old(self).sub_slice.offset as int,
                    old(self).sub_slice.offset + take,
                )
                &&& final(self).sub_slice.offset == old(self).sub_slice.offset + take
                &&& final(self).sub_slice.len == old(self).sub_slice.len - take
                &&& final(self).next_cluster == old(self).next_cluster
            }),
            old(self).sub_slice.len == 0 && old(self).next_cluster is None ==> r@.len() == 0
                && *final(self) == *old(self),
            old(self).sub_slice.len == 0 && old(self).next_cluster is Some ==> ({
                let c = old(self).next_cluster->0;
                let take = if n <= fs.bytes_per_cluster {
                    n as int
                } else {
                    fs.bytes_per_cluster as int
                };
                &&& r@ == fs.spec_image().subrange(
                    fs.spec_cluster_offset(c as int),
                    fs.spec_cluster_offset(c as int) + take,
                )
                &&& final(self).sub_slice.offset as int == fs.spec_cluster_offset(c as int) + take
                &&& final(self).sub_slice.len == fs.bytes_per_cluster - take
                &&& final(self).next_cluster == next_or_none(*fs, c)
            }),
    {
        if self.sub_slice.is_empty() {
            let next = match self.next_cluster {
                Some(next) => next,
                None => {
                    return Vec::new();
                },
            };

            self.next_cluster = match fs.next_cluster(next) {
                Ok(n) => n,
                Err(_) => None,
            };
            self.sub_slice = fs.cluster_as_subslice(next);
        }

        fs.read_window(&mut self.sub_slice, n)
    }

    /// Skips up to `n` bytes, crossing clusters as needed, and reports how
    /// far it moved; less than `n` means the stream reached its end.  A
    /// chain that walks more clusters than the volume has is cyclic and is
    /// treated as ending there.
    pub fn skip(&mut self, fs: &FatFs, n: u64) -> (r: u64)
        requires
            fs.wf(),
            old(self).wf(*fs),
        ensures
            final(self).wf(*fs),
            r <= n,
            r < n ==> final(self).at_eof(),
            ({
                let total = stream_bytes(
                    *fs,
                    old(self).sub_slice.len as int,
                    old(self).next_cluster,
                    fs.spec_max() as int + 1,
                );
                r as int == if n as int <= total {
                    n as int
                } else {
                    total
                }
            }),
            n <= old(self).sub_slice.len ==> r == n && final(self).sub_slice.offset == old(
                self,
            ).sub_slice.offset + n && final(self).sub_slice.len == old(self).sub_slice.len - n
                && final(self).next_cluster == old(self).next_cluster,
    {
        let image_len: usize = fs.inner.len();
        let mut remaining: u64 = n;
        let mut steps: u32 = 0;
        let max = fs.fat.valid_clusters().1;

        loop
            invariant
                fs.wf(),
                self.wf(*fs),
                image_len == fs.spec_image().len(),
                remaining <= n,
                remaining == n && n <= old(self).sub_slice.len ==> *self == *old(self),
                remaining < n ==> n > old(self).sub_slice.len,
                max == fs.spec_max(),
                stream_bytes(*fs, self.sub_slice.len as int, self.next_cluster, max as int + 1
                    - steps) + (n - remaining) == stream_bytes(
                    *fs,
                    old(self).sub_slice.len as int,
                    old(self).next_cluster,
                    max as int + 1,
                ),
                max < 0x0FFF_FFF6,
                steps <= max + 1,
            decreases remaining, max + 1 - steps,
        {
            if remaining == 0 {
                proof {
                    lemma_stream_bytes_nonneg(
                        *fs,
                        self.sub_slice.len as int,
                        self.next_cluster,
                        max as int + 1 - steps,
                    );
                }
                return n;
            }

            let window_len = self.sub_slice.len();

            if remaining <= window_len as u64 {
                proof {
                    lemma_stream_bytes_drain(
                        *fs,
                        window_len as int,
                        self.next_cluster,
                        max as int + 1 - steps,
                    );
                    lemma_stream_bytes_nonneg(*fs, 0, self.next_cluster, max as int + 1 - steps);
                }
                self.sub_slice.skip(remaining as usize);
                return n;
            }

            // the window is shorter than what is left to skip: drain it and
            // re-home to the next cluster
            proof {
                lemma_stream_bytes_drain(
                    *fs,
                    window_len as int,
                    self.next_cluster,
                    max as int + 1 - steps,
                );
            }
            self.sub_slice.skip(window_len);
            remaining = remaining - window_len as u64;

            let next = match self.next_cluster {
                Some(next) => next,
                None => {
                    self.sub_slice = SubSlice::new(0, 0);
                    return n - remaining;
                },
            };

            if steps > max {
                // more steps than the volume has clusters: the chain is
                // cyclic; stop as at end of stream
                self.sub_slice = SubSlice::new(0, 0);
                self.next_cluster = None;
                return n - remaining;
            }

            steps += 1;

            self.next_cluster = match fs.next_cluster(next) {
                Ok(nc) => nc,
                Err(_) => None,
            };
            self.sub_slice = fs.cluster_as_subslice(next);
        }
    }

    /// The absolute image offset the stream reads next.
    pub fn current_offset(&self) -> (r: u64)
        ensures
            r == self.sub_slice.offset,
    {
        self.sub_slice.offset()
    }
}

/// A sequential writer over a cluster chain (or over the fixed root
/// directory of a FAT12 or FAT16 volume).  When the chain runs out while
/// bytes remain, the writer allocates a cluster and splices it onto the
/// tail.
pub struct ClusterChainWriter {
    pub sub_slice: SubSliceMut,
    pub next_cluster: Option<u32>,
    pub current_cluster: Option<u32>,
}

impl ClusterChainWriter {
    /// The stream's window, lookahead and current cluster fit the volume.
    pub open spec fn wf(self, fs: FatFs) -> bool {
        &&& self.sub_slice.offset + self.sub_slice.len <= fs.spec_image().len()
        &&& (self.next_cluster is Some ==> 2 <= self.next_cluster->0 <= fs.spec_max())
        &&& (self.current_cluster is Some ==> 2 <= self.current_cluster->0 <= fs.spec_max())
    }

    /// A writer over the chain that starts at `first_cluster`.  Cluster 0
    /// (the marker of an empty file) yields a writer that accepts nothing.
    pub fn new(fs: &FatFs, first_cluster: u32) -> (r: ClusterChainWriter)
        requires
            fs.wf(),
            first_cluster == 0 || 2 <= first_cluster <= fs.spec_max(),
        ensures
            r.wf(*fs),
            first_cluster == 0 ==> r.sub_slice.len == 0 && r.current_cluster is None,
            first_cluster != 0 ==> r.sub_slice.offset as int == fs.spec_cluster_offset(
                first_cluster as int,
            ) && r.sub_slice.len == fs.bytes_per_cluster && r.current_cluster == Some(
                first_cluster,
            ),
            r.next_cluster == next_or_none(*fs, first_cluster),
    {
        let next_cluster = match fs.next_cluster(first_cluster) {
            Ok(next) => next,
            Err(_) => None,
        };

        let sub_slice = fs.cluster_as_subslice_mut(first_cluster);

        let current_cluster = if first_cluster == 0 {
            None
        } else {
            Some(first_cluster)
        };

        ClusterChainWriter { sub_slice, next_cluster, current_cluster }
    }

    /// A writer over the root directory: the fixed region on FAT12 and
    /// FAT16 (which can never grow), the chain at the BPB's root cluster
    /// on FAT32.  A FAT32 root cluster outside the valid range yields a
    /// writer that accepts nothing.
    pub fn root_dir_writer(fs: &FatFs) -> (r: ClusterChainWriter)
        requires
            fs.wf(),
        ensures
            r.wf(*fs),
            fs.bpb.fat_type != FatType::Fat32 ==> r.sub_slice.offset as int
                == fs.bpb.spec_root_dir_offset() && r.sub_slice.len == fs.root_dir_size
                && r.next_cluster is None && r.current_cluster is None,
            fs.bpb.fat_type == FatType::Fat32 ==> ({
                let rc = match fs.bpb.ext_bpb {
                    crate::bpb::ExtBpb::ExtBpb32(e) => e.root_cluster,
                    crate::bpb::ExtBpb::ExtBpb16(_) => 0u32,
                };
                &&& (2 <= rc <= fs.spec_max() ==> r.sub_slice.offset as int
                    == fs.spec_cluster_offset(rc as int) && r.sub_slice.len
                    == fs.bytes_per_cluster && r.next_cluster == next_or_none(*fs, rc)
                    && r.current_cluster == Some(rc))
                &&& (!(2 <= rc <= fs.spec_max()) ==> r.sub_slice.len == 0 && r.next_cluster
                    is None && r.current_cluster is None)
            }),
    {
        if !matches!(fs.fat_type(), FatType::Fat32) {
            let sub_slice = fs.root_dir_as_subslice_mut();

            return ClusterChainWriter { sub_slice, next_cluster: None, current_cluster: None };
        }

        let root_cluster = match fs.root_cluster() {
            Some(c) => c,
            None => 0,
        };

        let max = fs.fat.valid_clusters().1;

        if root_cluster != 0 && (root_cluster < 2 || root_cluster > max) {
            return ClusterChainWriter {
                sub_slice: SubSliceMut::new(0, 0),
                next_cluster: None,
                current_cluster: None,
            };
        }

        Self::new(fs, root_cluster)
    }

    /// Writes the front of `buf` at the stream's position and advances
    /// past it, re-homing to the next cluster when the window is drained.
    /// When the chain ends and bytes remain, one cluster is allocated and
    /// spliced onto the tail (whole or not at all); with no free cluster,
    /// or no well-ended tail to splice to, the write returns 0.  The image
    /// changes only at the bytes written; the FAT changes only by the
    /// splice.
    pub fn write(&mut self, fs: &mut FatFs, buf: &[u8]) -> (r: usize)
        requires
            old(fs).wf(),
            old(self).wf(*old(fs)),
        ensures
            final(fs).wf(),
            final(self).wf(*final(fs)),
            r <= buf@.len(),
            final(fs).bpb == old(fs).bpb,
            final(fs).spec_max() == old(fs).spec_max(),
            final(fs).bytes_per_cluster == old(fs).bytes_per_cluster,
            final(fs).spec_image().len() == old(fs).spec_image().len(),
            // serving from the current window
            old(self).sub_slice.len != 0 ==> ({
                let put = if buf@.len() <= old(self).sub_slice.len {
                    buf@.len() as int
                } else {
                    old(self).sub_slice.len as int
                };
                &&& r == put
                &&& final(fs).spec_image() == crate::slice_like::overwrite(
                    old(fs).spec_image(),
                    old(self).sub_slice.offset as int,
                    buf@.take(put),
                )
                &&& final(fs).fat == old(fs).fat
                &&& final(fs).free_count == old(fs).free_count
                &&& final(self).sub_slice.offset == old(self).sub_slice.offset + put
                &&& final(self).sub_slice.len == old(self).sub_slice.len - put
                &&& final(self).next_cluster == old(self).next_cluster
                &&& final(self).current_cluster == old(self).current_cluster
            }),
            // re-homing to the looked-ahead cluster
            old(self).sub_slice.len == 0 && old(self).next_cluster is Some ==> ({
                let c = old(self).next_cluster->0;
                let put = if buf@.len() <= old(fs).bytes_per_cluster {
                    buf@.len() as int
                } else {
                    old(fs).bytes_per_cluster as int
                };
                &&& r == put
                &&& final(fs).spec_image() == crate::slice_like::overwrite(
                    old(fs).spec_image(),
                    old(fs).spec_cluster_offset(c as int),
                    buf@.take(put),
                )
                &&& final(fs).fat == old(fs).fat
                &&& final(fs).free_count == old(fs).free_count
                &&& final(self).sub_slice.offset as int == old(fs).spec_cluster_offset(c as int)
                    + put
                &&& final(self).sub_slice.len == old(fs).bytes_per_cluster - put
                &&& final(self).current_cluster == Some(c)
                &&& final(self).next_cluster == next_or_none(*old(fs), c)
            }),
            // nothing to write into and nothing to splice to
            old(self).sub_slice.len == 0 && old(self).next_cluster is None && old(
                self,
            ).current_cluster is None ==> r == 0 && *final(fs) == *old(fs) && *final(self) == *old(
                self,
            ),
            // at the end of the chain: splice on a fresh cluster
            old(self).sub_slice.len == 0 && old(self).next_cluster is None && old(
                self,
            ).current_cluster is Some ==> ({
                let tail = old(self).current_cluster->0;
                if old(fs).fat.spec_next(tail) != Ok::<Option<u32>, crate::fat::FatError>(None) {
                    // the tail does not end a chain: the stream is corrupt,
                    // nothing is written
                    r == 0 && *final(fs) == *old(fs) && *final(self) == *old(self)
                } else if old(fs).free_count == 0 {
                    r == 0 && *final(fs) == *old(fs) && *final(self) == *old(self)
                } else {
                    exists|c: u32|
                        {
                            let put = if buf@.len() <= old(fs).bytes_per_cluster {
                                buf@.len() as int
                            } else {
                                old(fs).bytes_per_cluster as int
                            };
                            &&& 2 <= c <= old(fs).spec_max()
                            &&& #[trigger] old(fs).fat.spec_entries()[c as int] == 0
                            &&& final(fs).fat.spec_entries() == old(fs).fat.spec_entries().update(
                                c as int,
                                old(fs).fat.spec_eof(),
                            ).update(tail as int, c)
                            &&& final(fs).free_count == old(fs).free_count - 1
                            &&& r == put
                            &&& final(fs).spec_image() == crate::slice_like::overwrite(
                                old(fs).spec_image(),
                                old(fs).spec_cluster_offset(c as int),
                                buf@.take(put),
                            )
                            &&& final(self).sub_slice.offset as int == old(fs).spec_cluster_offset(
                                c as int,
                            ) + put
                            &&& final(self).sub_slice.len == old(fs).bytes_per_cluster - put
                            &&& final(self).current_cluster == Some(c)
                            &&& final(self).next_cluster is None
                        }
                }
            }),
    {
        if self.sub_slice.is_empty() {
            let next = match self.next_cluster {
                Some(next) => next,
                None => {
                    let tail = match self.current_cluster {
                        Some(tail) => tail,
                        None => {
                            return 0;
                        },
                    };

                    // only a chain that properly ends at this tail may grow
                    match fs.next_cluster(tail) {
                        Ok(None) => {},
                        _ => {
                            return 0;
                        },
                    }

                    let newc = match fs.allocate() {
                        Some(newc) => newc,
                        None => {
                            return 0;
                        },
                    };

                    let ghost entries1 = fs.fat.spec_entries();
                    let ghost max = fs.spec_max();

                    fs.fat.set_entry(tail, newc);

                    proof {
                        crate::fat::lemma_free_in_update(
                            entries1,
                            2,
                            max as int + 1,
                            tail as int,
                            newc,
                        );
                    }

                    self.sub_slice = fs.cluster_as_subslice_mut(newc);
                    self.current_cluster = Some(newc);
                    self.next_cluster = None;

                    return fs.write_window(&mut self.sub_slice, buf);
                },
            };

            self.next_cluster = match fs.next_cluster(next) {
                Ok(n) => n,
                Err(_) => None,
            };
            self.sub_slice = fs.cluster_as_subslice_mut(next);
            self.current_cluster = Some(next);
        }

        fs.write_window(&mut self.sub_slice, buf)
    }

    /// Skips up to `n` bytes, crossing clusters as needed, and reports how
    /// far it moved; less than `n` means the stream reached the end of its
    /// chain.  A chain that walks more clusters than the volume has is
    /// cyclic and is treated as ending there.
    pub fn skip(&mut self, fs: &FatFs, n: u64) -> (r: u64)
        requires
            fs.wf(),
            old(self).wf(*fs),
        ensures
            final(self).wf(*fs),
            r <= n,
            r < n ==> final(self).sub_slice.len == 0 && final(self).next_cluster is None,
            ({
                let total = stream_bytes(
                    *fs,
                    old(self).sub_slice.len as int,
                    old(self).next_cluster,
                    fs.spec_max() as int + 1,
                );
                r as int == if n as int <= total {
                    n as int
                } else {
                    total
                }
            }),
            n <= old(self).sub_slice.len ==> r == n && final(self).sub_slice.offset == old(
                self,
            ).sub_slice.offset + n && final(self).sub_slice.len == old(self).sub_slice.len - n
                && final(self).next_cluster == old(self).next_cluster,
    {
        let image_len: usize = fs.inner.len();
        let mut remaining: u64 = n;
        let mut steps: u32 = 0;
        let max = fs.fat.valid_clusters().1;

        loop
            invariant
                fs.wf(),
                self.wf(*fs),
                image_len == fs.spec_image().len(),
                remaining <= n,
                remaining == n && n <= old(self).sub_slice.len ==> *self == *old(self),
                remaining < n ==> n > old(self).sub_slice.len,
                max == fs.spec_max(),
                stream_bytes(*fs, self.sub_slice.len as int, self.next_cluster, max as int + 1
                    - steps) + (n - remaining) == stream_bytes(
                    *fs,
                    old(self).sub_slice.len as int,
                    old(self).next_cluster,
                    max as int + 1,
                ),
                max < 0x0FFF_FFF6,
                steps <= max + 1,
            decreases remaining, max + 1 - steps,
        {
            if remaining == 0 {
                proof {
                    lemma_stream_bytes_nonneg(
                        *fs,
                        self.sub_slice.len as int,
                        self.next_cluster,
                        max as int + 1 - steps,
                    );
                }
                return n;
            }

            let window_len = self.sub_slice.len();

            if remaining <= window_len as u64 {
                proof {
                    lemma_stream_bytes_drain(
                        *fs,
                        window_len as int,
                        self.next_cluster,
                        max as int + 1 - steps,
                    );
                    lemma_stream_bytes_nonneg(*fs, 0, self.next_cluster, max as int + 1 - steps);
                }
                self.sub_slice.skip(remaining as usize);
                return n;
            }

            proof {
                lemma_stream_bytes_drain(
                    *fs,
                    window_len as int,
                    self.next_cluster,
                    max as int + 1 - steps,
                );
            }
            self.sub_slice.skip(window_len);
            remaining = remaining - window_len as u64;

            let next = match self.next_cluster {
                Some(next) => next,
                None => {
                    self.sub_slice = SubSliceMut::new(0, 0);
                    return n - remaining;
                },
            };

            if steps > max {
                // more steps than the volume has clusters: the chain is
                // cyclic; stop as at end of stream
                self.sub_slice = SubSliceMut::new(0, 0);
                self.next_cluster = None;
                return n - remaining;
            }

            steps += 1;

            self.next_cluster = match fs.next_cluster(next) {
                Ok(nc) => nc,
                Err(_) => None,
            };
            self.sub_slice = fs.cluster_as_subslice_mut(next);
            self.current_cluster = Some(next);
        }
    }

    /// The absolute image offset the stream writes next.
    pub fn current_offset(&self) -> (r: u64)
        ensures
            r == self.sub_slice.offset,
    {
        self.sub_slice.offset()
    }
}

} // verus!
