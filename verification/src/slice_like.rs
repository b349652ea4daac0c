//! The block backend: a sized byte store with positioned reads and writes.
//!
//! [`SliceLike`] is the capability the volume needs; [`MemSlice`] is the
//! in-memory store the library provides.  A host loads a volume image into
//! a [`MemSlice`], mounts it, and takes the bytes back when done.

use vstd::prelude::*;

verus! {

/// Why a backend access failed.
#[derive(Debug, Clone, Copy, PartialEq, Eq, Structural)]
pub enum IoError {
    /// The access would run past the end of the backing store.
    OutOfBounds,
}

/// The bytes of `data` with `patch` written at `offset`.
pub open spec fn overwrite(data: Seq<u8>, offset: int, patch: Seq<u8>) -> Seq<u8>
    recommends
        0 <= offset,
        offset + patch.len() <= data.len(),
{
    data.subrange(0, offset) + patch + data.subrange(offset + patch.len(), data.len() as int)
}

/// How an overwritten store reads back: the patch inside its range, the
/// old bytes elsewhere.
pub proof fn lemma_overwrite_index(data: Seq<u8>, offset: int, patch: Seq<u8>)
    requires
        0 <= offset,
        offset + patch.len() <= data.len(),
    ensures
        overwrite(data, offset, patch).len() == data.len(),
        forall|j: int|
            0 <= j < data.len() ==> overwrite(data, offset, patch)[j] == (if offset <= j < offset
                + patch.len() {
                patch[j - offset]
            } else {
                data[j]
            }),
{
}

/// A random-access byte store with positioned read and positioned write.
/// An access past the backing length fails with an out-of-bounds error; a
/// successful access touches exactly the addressed range.
pub trait SliceLike: Sized {
    /// The bytes held by the store.
    spec fn spec_data(&self) -> Seq<u8>;

    /// Reads `len` bytes at `offset`.
    fn read_at_offset(&mut self, offset: u64, len: usize) -> (r: Result<Vec<u8>, IoError>)
        ensures
            final(self).spec_data() == old(self).spec_data(),
            offset + len > old(self).spec_data().len() ==> r is Err,
            r is Ok ==> offset + len <= old(self).spec_data().len() && r->Ok_0@ == old(self).spec_data().subrange(offset as int, offset + len),
    ;

    /// Writes `bytes` at `offset`.
    fn write_at_offset(&mut self, offset: u64, bytes: &[u8]) -> (r: Result<(), IoError>)
        ensures
            offset + bytes@.len() > old(self).spec_data().len() ==> r is Err,
            r is Err ==> final(self).spec_data() == old(self).spec_data(),
            r is Ok ==> offset + bytes@.len() <= old(self).spec_data().len() && final(self).spec_data() == overwrite(old(self).spec_data(), offset as int, bytes@),
    ;
}

/// An in-memory byte store, the backing of a mounted volume image.
#[derive(Debug, Clone)]
pub struct MemSlice {
    pub data: Vec<u8>,
}

impl MemSlice {
    /// Wraps a byte buffer.
    pub fn new(data: Vec<u8>) -> (r: MemSlice)
        ensures
            r.data@ == data@,
    {
        MemSlice { data }
    }

    /// The number of bytes held.
    pub fn len(&self) -> (r: usize)
        ensures
            r == self.data@.len(),
    {
        self.data.len()
    }

    /// Hands the bytes back, for a host to store.
    pub fn into_vec(self) -> (r: Vec<u8>)
        ensures
            r@ == self.data@,
    {
        self.data
    }

    /// Reads `len` bytes at `offset`; fails exactly when the range leaves
    /// the store.
    pub fn read_exact_at(&self, offset: u64, len: usize) -> (r: Result<Vec<u8>, IoError>)
        ensures
            r is Ok <==> offset + len <= self.data@.len(),
            r is Ok ==> r->Ok_0@ == self.data@.subrange(offset as int, offset + len),
    {
        let n = self.data.len();

        if offset > n as u64 || (len as u64) > n as u64 - offset {
            return Err(IoError::OutOfBounds);
        }

        let start = offset as usize;
        let mut out: Vec<u8> = Vec::new();
        let mut i: usize = 0;
        while i < len
            invariant
                i <= len,
                n == self.data@.len(),
                start + len <= self.data@.len(),
                out@.len() == i,
                forall|j: int| 0 <= j < i ==> out@[j] == self.data@[start + j],
            decreases len - i,
        {
            out.push(self.data[start + i]);
            i += 1;
        }
        proof {
            assert(out@ =~= self.data@.subrange(offset as int, offset + len));
        }
        Ok(out)
    }

    /// Writes `bytes` at `offset`; fails exactly when the range leaves the
    /// store, leaving it unchanged.
    pub fn write_all_at(&mut self, offset: u64, bytes: &[u8]) -> (r: Result<(), IoError>)
        ensures
            r is Ok <==> offset + bytes@.len() <= old(self).data@.len(),
            r is Ok ==> final(self).data@ == overwrite(old(self).data@, offset as int, bytes@),
            r is Err ==> final(self).data@ == old(self).data@,
    {
        let n = self.data.len();
        let len = bytes.len();

        if offset > n as u64 || (len as u64) > n as u64 - offset {
            return Err(IoError::OutOfBounds);
        }

        let start = offset as usize;
        let mut i: usize = 0;
        while i < len
            invariant
                i <= len == bytes@.len(),
                n == old(self).data@.len(),
                start + len <= self.data@.len(),
                self.data@.len() == old(self).data@.len(),
                forall|j: int| 0 <= j < i ==> self.data@[start + j] == bytes@[j],
                forall|j: int|
                    0 <= j < self.data@.len() && !(start <= j < start + i) ==> self.data@[j] == old(self).data@[j],
            decreases len - i,
        {
            self.data.set(start + i, bytes[i]);
            i += 1;
        }
        proof {
            assert(self.data@ =~= overwrite(old(self).data@, offset as int, bytes@));
        }
        Ok(())
    }
}

impl SliceLike for MemSlice {
    open spec fn spec_data(&self) -> Seq<u8> {
        self.data@
    }

    fn read_at_offset(&mut self, offset: u64, len: usize) -> (r: Result<Vec<u8>, IoError>) {
        self.read_exact_at(offset, len)
    }

    fn write_at_offset(&mut self, offset: u64, bytes: &[u8]) -> (r: Result<(), IoError>) {
        self.write_all_at(offset, bytes)
    }
}

} // verus!
