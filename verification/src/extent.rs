//! Extent tree records: allocation items, block groups, and device
//! extents.

use vstd::prelude::*;

use crate::bytes::{copy_bytes, le_u64};
use crate::bytes::spec_le_u64;
use crate::device::BlockDevice;
use crate::error::BtrfsError;
use crate::fs::BtrfsFilesystem;

verus! {

/// An extent item: reference count, generation, and flags.
#[derive(Debug, Clone, PartialEq, Eq, Structural)]
pub struct ExtentItem {
    /// Reference count.
    pub refs: u64,
    /// Generation.
    pub generation: u64,
    /// Flags.
    pub flags: u64,
}

/// A block group item: usage accounting for one chunk.
#[derive(Debug, Clone, PartialEq, Eq, Structural)]
pub struct BlockGroupItem {
    /// Used bytes in this block group.
    pub used: u64,
    /// Chunk object id.
    pub chunk_objectid: u64,
    /// Flags.
    pub flags: u64,
}

impl BlockGroupItem {
    /// Parses a 24-byte block group item.
    pub fn from_bytes(data: &[u8]) -> (r: Result<Self, BtrfsError>)
        ensures
            r is Ok <==> data@.len() >= 24,
            r is Ok ==> r->Ok_0 == (BlockGroupItem {
                used: spec_le_u64(data@, 0),
                chunk_objectid: spec_le_u64(data@, 8),
                flags: spec_le_u64(data@, 16),
            }),
            r is Err ==> r->Err_0 is Corrupt,
    {
        let n: usize = data.len();
        if n < 24 {
            return Err(BtrfsError::Corrupt("block group item too small".to_owned()));
        }
        Ok(BlockGroupItem {
            used: le_u64(data, 0),
            chunk_objectid: le_u64(data, 8),
            flags: le_u64(data, 16),
        })
    }
}

/// A view over the extent tree for space accounting.
pub struct ExtentTree<'a, D: BlockDevice> {
    /// The filesystem the tree lives in.
    pub fs: &'a BtrfsFilesystem<D>,
}

impl<'a, D: BlockDevice> ExtentTree<'a, D> {
    /// Builds an extent tree accessor.
    pub fn new(fs: &'a BtrfsFilesystem<D>) -> (r: Self)
        ensures
            r.fs == fs,
    {
        ExtentTree { fs }
    }

    /// The allocated space: the superblock's used-bytes count.
    pub fn total_allocated(&self) -> (r: Result<u64, BtrfsError>)
        ensures
            r == Ok::<u64, BtrfsError>(self.fs.superblock.raw.bytes_used),
    {
        Ok(self.fs.superblock().bytes_used())
    }

    /// The free space: total bytes less allocated bytes, saturating
    /// at zero.
    pub fn total_free(&self) -> (r: Result<u64, BtrfsError>)
        ensures
            r is Ok,
            self.fs.superblock.raw.total_bytes >= self.fs.superblock.raw.bytes_used ==> r->Ok_0
                == self.fs.superblock.raw.total_bytes - self.fs.superblock.raw.bytes_used,
            self.fs.superblock.raw.total_bytes < self.fs.superblock.raw.bytes_used ==> r->Ok_0
                == 0,
    {
        let total = self.fs.superblock().total_bytes();
        let used = self.fs.superblock().bytes_used();
        if total >= used {
            Ok(total - used)
        } else {
            Ok(0)
        }
    }

    /// Extent allocation lookup is not implemented; every query
    /// reports unallocated.
    pub fn is_allocated(&self, _logical: u64, _size: u64) -> (r: Result<bool, BtrfsError>)
        ensures
            r == Ok::<bool, BtrfsError>(false),
    {
        Ok(false)
    }
}

/// A device extent: the chunk a physical device range belongs to.
#[derive(Debug, Clone)]
pub struct DevExtent {
    /// Owning tree; the chunk tree.
    pub chunk_tree: u64,
    /// Chunk object id.
    pub chunk_objectid: u64,
    /// Logical address of the chunk.
    pub chunk_offset: u64,
    /// Length of the extent in bytes.
    pub length: u64,
    /// Chunk tree UUID (16 bytes).
    pub chunk_tree_uuid: Vec<u8>,
}

impl DevExtent {
    /// Parses a 48-byte device extent.
    pub fn from_bytes(data: &[u8]) -> (r: Result<Self, BtrfsError>)
        ensures
            r is Ok <==> data@.len() >= 48,
            r is Ok ==> ({
                let e = r->Ok_0;
                &&& e.chunk_tree == spec_le_u64(data@, 0)
                &&& e.chunk_objectid == spec_le_u64(data@, 8)
                &&& e.chunk_offset == spec_le_u64(data@, 16)
                &&& e.length == spec_le_u64(data@, 24)
                &&& e.chunk_tree_uuid@ == data@.subrange(32, 48)
            }),
            r is Err ==> r->Err_0 is Corrupt,
    {
        let n: usize = data.len();
        if n < 48 {
            return Err(BtrfsError::Corrupt("device extent too small".to_owned()));
        }
        Ok(DevExtent {
            chunk_tree: le_u64(data, 0),
            chunk_objectid: le_u64(data, 8),
            chunk_offset: le_u64(data, 16),
            length: le_u64(data, 24),
            chunk_tree_uuid: copy_bytes(data, 32, 16),
        })
    }
}

} // verus!
