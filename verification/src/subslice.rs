//! Byte windows: transient views of a range of the volume image.
//!
//! A window carries only an absolute offset and a remaining length; it owns
//! no buffer.  Reads and writes through a window go through the volume,
//! which owns the backend (see the methods on `FatFs`).

use vstd::prelude::*;

verus! {

/// A read window into the volume image.
#[derive(Debug, Clone, Copy, PartialEq, Eq, Structural)]
pub struct SubSlice {
    pub offset: u64,
    pub len: usize,
}

impl SubSlice {
    /// A window of `len` bytes starting at absolute offset `offset`.
    pub fn new(offset: u64, len: usize) -> (r: SubSlice)
        ensures
            r.offset == offset,
            r.len == len,
    {
        SubSlice { offset, len }
    }

    /// Remaining bytes of the window.
    pub fn len(&self) -> (r: usize)
        ensures
            r == self.len,
    {
        self.len
    }

    /// True when the window is drained.
    pub fn is_empty(&self) -> (r: bool)
        ensures
            r == (self.len == 0),
    {
        self.len == 0
    }

    /// The absolute offset of the next byte.
    pub fn offset(&self) -> (r: u64)
        ensures
            r == self.offset,
    {
        self.offset
    }

    /// Advances the window by up to `n` bytes and reports how far it moved.
    pub fn skip(&mut self, n: usize) -> (r: usize)
        requires
            old(self).offset + old(self).len <= u64::MAX,
        ensures
            r == if n <= old(self).len {
                n
            } else {
                old(self).len
            },
            final(self).offset == old(self).offset + r,
            final(self).len == old(self).len - r,
    {
        let n = if n < self.len {
            n
        } else {
            self.len
        };

        self.offset = self.offset + n as u64;
        self.len = self.len - n;

        n
    }
}

/// A write window into the volume image.
#[derive(Debug, Clone, Copy, PartialEq, Eq, Structural)]
pub struct SubSliceMut {
    pub offset: u64,
    pub len: usize,
}

impl SubSliceMut {
    /// A window of `len` bytes starting at absolute offset `offset`.
    pub fn new(offset: u64, len: usize) -> (r: SubSliceMut)
        ensures
            r.offset == offset,
            r.len == len,
    {
        SubSliceMut { offset, len }
    }

    /// Remaining bytes of the window.
    pub fn len(&self) -> (r: usize)
        ensures
            r == self.len,
    {
        self.len
    }

    /// True when the window is drained.
    pub fn is_empty(&self) -> (r: bool)
        ensures
            r == (self.len == 0),
    {
        self.len == 0
    }

    /// The absolute offset of the next byte.
    pub fn offset(&self) -> (r: u64)
        ensures
            r == self.offset,
    {
        self.offset
    }

    /// Advances the window by up to `n` bytes and reports how far it moved.
    pub fn skip(&mut self, n: usize) -> (r: usize)
        requires
            old(self).offset + old(self).len <= u64::MAX,
        ensures
            r == if n <= old(self).len {
                n
            } else {
                old(self).len
            },
            final(self).offset == old(self).offset + r,
            final(self).len == old(self).len - r,
    {
        let n = if n < self.len {
            n
        } else {
            self.len
        };

        self.offset = self.offset + n as u64;
        self.len = self.len - n;

        n
    }
}

} // verus!
