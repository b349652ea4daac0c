//! The FAT32 FS-Info sector: advisory free-cluster hints.

use vstd::prelude::*;

use crate::utils::{load_u32_le, u32_le};

verus! {

broadcast use vstd::slice::axiom_spec_len;

/// Why an FS-Info sector was rejected.
#[derive(Debug, Clone, Copy, PartialEq, Eq, Structural)]
pub enum FsInfoError {
    /// The lead signature at offset 0 is not 0x41615252.
    InvalidLeadSignature,
    /// The structural signature at offset 484 is not 0x61417272.
    InvalidStructSignature,
    /// The trailing signature at offset 508 is not 0xAA550000.
    InvalidTrailSignature,
}

/// The advisory hints of an FS-Info sector.
#[derive(Debug, Clone, Copy, PartialEq, Eq, Structural)]
pub struct FsInfo {
    pub free_count: u32,
    pub next_free: u32,
}

impl FsInfo {
    /// Validates the three signatures of an FS-Info sector and reads the
    /// two hints.  Succeeds exactly when all three signatures match.
    pub fn load(bytes: &[u8]) -> (r: Result<FsInfo, FsInfoError>)
        requires
            bytes@.len() >= 512,
        ensures
            u32_le(bytes@.subrange(0, 4)) != 0x41615252 ==> r == Err::<FsInfo, FsInfoError>(
                FsInfoError::InvalidLeadSignature,
            ),
            u32_le(bytes@.subrange(0, 4)) == 0x41615252 && u32_le(bytes@.subrange(484, 488))
                != 0x61417272 ==> r == Err::<FsInfo, FsInfoError>(
                FsInfoError::InvalidStructSignature,
            ),
            u32_le(bytes@.subrange(0, 4)) == 0x41615252 && u32_le(bytes@.subrange(484, 488))
                == 0x61417272 && u32_le(bytes@.subrange(508, 512)) != 0xAA550000 ==> r == Err::<
                FsInfo,
                FsInfoError,
            >(FsInfoError::InvalidTrailSignature),
            u32_le(bytes@.subrange(0, 4)) == 0x41615252 && u32_le(bytes@.subrange(484, 488))
                == 0x61417272 && u32_le(bytes@.subrange(508, 512)) == 0xAA550000 ==> r is Ok && {
                let info = r->Ok_0;
                &&& info.free_count as int == u32_le(bytes@.subrange(488, 492))
                &&& info.next_free as int == u32_le(bytes@.subrange(492, 496))
            },
    {
        let lead_sig = load_u32_le(&bytes[0..4]);

        if lead_sig != 0x41615252 {
            return Err(FsInfoError::InvalidLeadSignature);
        }

        let struct_sig = load_u32_le(&bytes[484..488]);

        if struct_sig != 0x61417272 {
            return Err(FsInfoError::InvalidStructSignature);
        }

        let trail_sig = load_u32_le(&bytes[508..512]);

        if trail_sig != 0xAA550000 {
            return Err(FsInfoError::InvalidTrailSignature);
        }

        let free_count = load_u32_le(&bytes[488..492]);
        let next_free = load_u32_le(&bytes[492..496]);

        Ok(FsInfo { free_count, next_free })
    }

    /// The advisory count of free clusters.
    pub fn free_count(&self) -> (r: u32)
        ensures
            r == self.free_count,
    {
        self.free_count
    }

    /// The advisory next-free-cluster hint.
    pub fn next_free(&self) -> (r: u32)
        ensures
            r == self.next_free,
    {
        self.next_free
    }
}

} // verus!
