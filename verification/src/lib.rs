//! Userspace reader for the BTRFS on-disk format.
//!
//! The crate parses and validates the superblock, maintains the
//! logical-to-physical chunk mapping, walks the copy-on-write B-tree
//! forest, decodes the item kinds on the read path, and assembles file
//! data from extents, enforcing CRC32c checksums at every level.

pub mod bytes;
pub mod checksum;
pub mod chunk;
pub mod chunk_type;
pub mod compress;
pub mod device;
pub mod error;
pub mod extent;
pub mod fs;
pub mod incompat;
pub mod inode;
pub mod item_type;
pub mod numfmt;
pub mod objectid;
pub mod ops;
pub mod extent_flags;
pub mod strutil;
pub mod subvol_flags;
pub mod subvolume;
pub mod superblock;
pub mod tree;
pub mod version;

pub use crate::chunk::ChunkTree;
pub use crate::checksum::Checksum;
pub use crate::compress::CompressionType;
pub use crate::device::{BlockDevice, MemoryDevice};
pub use crate::error::{BlockDeviceError, BtrfsError};
pub use crate::extent::ExtentTree;
pub use crate::fs::BtrfsFilesystem;
pub use crate::inode::{Inode, InodeType};
pub use crate::subvolume::Subvolume;
pub use crate::superblock::Superblock;
pub use crate::tree::{BtrfsKey, BtrfsTree, TreeType};

use vstd::prelude::*;

verus! {

/// Physical offset of the primary superblock (64 KiB).
pub const SUPERBLOCK_OFFSET: u64 = 0x10000;

/// Physical offset of the first superblock mirror (64 MiB).
pub const SUPERBLOCK_MIRROR1_OFFSET: u64 = 0x4000000;

/// Physical offset of the second superblock mirror (256 GiB).
pub const SUPERBLOCK_MIRROR2_OFFSET: u64 = 0x4000000000;

/// Default tree node size in bytes.
pub const DEFAULT_NODE_SIZE: u32 = 16384;

/// Default sector size in bytes.
pub const DEFAULT_SECTOR_SIZE: u32 = 4096;

/// The superblock magic, `_BHRfS_M`, as a byte sequence.
pub open spec fn magic_seq() -> Seq<u8> {
    seq![0x5fu8, 0x42u8, 0x48u8, 0x52u8, 0x66u8, 0x53u8, 0x5fu8, 0x4du8]
}

/// Returns the superblock magic bytes, `_BHRfS_M`.
pub fn btrfs_magic() -> (r: [u8; 8])
    ensures
        r@ == magic_seq(),
{
    let r: [u8; 8] = [0x5fu8, 0x42u8, 0x48u8, 0x52u8, 0x66u8, 0x53u8, 0x5fu8, 0x4du8];
    proof {
        assert(r@ =~= magic_seq());
    }
    r
}

} // verus!
