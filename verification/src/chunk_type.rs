//! Chunk type flag bits: content class and RAID profile of a chunk.

use vstd::prelude::*;

verus! {

pub const DATA: u64 = 1 << 0;

pub const SYSTEM: u64 = 1 << 1;

pub const METADATA: u64 = 1 << 2;

pub const RAID0: u64 = 1 << 3;

pub const RAID1: u64 = 1 << 4;

pub const DUP: u64 = 1 << 5;

pub const RAID10: u64 = 1 << 6;

pub const RAID5: u64 = 1 << 7;

pub const RAID6: u64 = 1 << 8;

pub const RAID1C3: u64 = 1 << 9;

pub const RAID1C4: u64 = 1 << 10;

} // verus!
