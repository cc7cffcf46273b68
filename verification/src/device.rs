//! The block device port.
//!
//! The core consumes an abstract storage backend through this trait:
//! hosts supply image files or physical disks, and every read of the
//! core goes through `read_at`. The write path is out of scope for
//! this reader. `MemoryDevice` is an in-memory backend used by tests
//! and small hosts.

use vstd::prelude::*;

use crate::bytes::copy_bytes;
use crate::error::BlockDeviceError;

verus! {

/// An abstract block-addressable storage backend.
///
/// Nothing is assumed of the bytes a backend returns beyond their
/// count: every consumer of this trait validates what it reads with
/// checksums and structural checks.
pub trait BlockDevice: Sized {
    /// Total device size in bytes.
    fn size(&self) -> u64;

    /// Logical sector size in bytes.
    fn sector_size(&self) -> u32;

    /// Whether the device refuses writes.
    fn is_read_only(&self) -> bool;

    /// Reads exactly `len` bytes at physical offset `offset`, or
    /// fails if the range is not fully readable.
    fn read_at(&self, offset: u64, len: usize) -> (r: Result<Vec<u8>, BlockDeviceError>)
        ensures
            r is Ok ==> r->Ok_0@.len() == len,
    ;
}

/// An in-memory block device backed by a byte vector.
#[derive(Debug, Clone)]
pub struct MemoryDevice {
    /// The device contents.
    pub bytes: Vec<u8>,
    /// Whether the device refuses writes.
    pub read_only: bool,
}

impl MemoryDevice {
    /// Builds a device over the given contents.
    pub fn new(bytes: Vec<u8>, read_only: bool) -> (r: Self)
        ensures
            r.bytes@ == bytes@,
            r.read_only == read_only,
    {
        MemoryDevice { bytes, read_only }
    }
}

impl BlockDevice for MemoryDevice {
    fn size(&self) -> u64 {
        self.bytes.len() as u64
    }

    fn sector_size(&self) -> u32 {
        512
    }

    fn is_read_only(&self) -> bool {
        self.read_only
    }

    fn read_at(&self, offset: u64, len: usize) -> (r: Result<Vec<u8>, BlockDeviceError>)
        ensures
            r is Ok <==> offset + len <= self.bytes@.len(),
            r is Ok ==> r->Ok_0@ == self.bytes@.subrange(offset as int, offset as int + len as int),
    {
        let n: usize = self.bytes.len();
        if offset > n as u64 {
            return Err(BlockDeviceError::InvalidOffset { offset, size: n as u64 });
        }
        let off: usize = offset as usize;
        if len > n - off {
            return Err(BlockDeviceError::ReadBeyondEnd);
        }
        Ok(copy_bytes(self.bytes.as_slice(), off, len))
    }
}

} // verus!
