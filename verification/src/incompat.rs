//! Incompatible feature flag bits of the superblock.

use vstd::prelude::*;

verus! {

pub const MIXED_BACKREF: u64 = 1 << 0;

pub const DEFAULT_SUBVOL: u64 = 1 << 1;

pub const MIXED_GROUPS: u64 = 1 << 2;

pub const COMPRESS_LZO: u64 = 1 << 3;

pub const COMPRESS_ZSTD: u64 = 1 << 4;

pub const BIG_METADATA: u64 = 1 << 5;

pub const EXTENDED_IREF: u64 = 1 << 6;

pub const RAID56: u64 = 1 << 7;

pub const SKINNY_METADATA: u64 = 1 << 8;

pub const NO_HOLES: u64 = 1 << 9;

pub const METADATA_UUID: u64 = 1 << 10;

pub const RAID1C34: u64 = 1 << 11;

pub const ZONED: u64 = 1 << 12;

pub const EXTENT_TREE_V2: u64 = 1 << 13;

} // verus!
