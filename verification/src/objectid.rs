//! Object ids of the well-known trees.

use vstd::prelude::*;

verus! {

/// Root tree object id.
pub const ROOT_TREE: u64 = 1;

/// Extent tree object id.
pub const EXTENT_TREE: u64 = 2;

/// Chunk tree object id.
pub const CHUNK_TREE: u64 = 3;

/// Device tree object id.
pub const DEV_TREE: u64 = 4;

/// Default filesystem tree object id.
pub const FS_TREE: u64 = 5;

/// Root tree directory object id.
pub const ROOT_TREE_DIR: u64 = 6;

/// Checksum tree object id.
pub const CSUM_TREE: u64 = 7;

/// Quota tree object id.
pub const QUOTA_TREE: u64 = 8;

/// UUID tree object id.
pub const UUID_TREE: u64 = 9;

/// Free space tree object id.
pub const FREE_SPACE_TREE: u64 = 10;

/// First object id free for subvolumes and inodes.
pub const FIRST_FREE: u64 = 256;

/// Last free object id.
pub const LAST_FREE: u64 = u64::MAX - 256;

} // verus!
