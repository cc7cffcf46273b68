//! Item type bytes of tree keys.

use vstd::prelude::*;

verus! {

pub const INODE_ITEM: u8 = 0x01;

pub const INODE_REF: u8 = 0x0C;

pub const INODE_EXTREF: u8 = 0x0D;

pub const XATTR_ITEM: u8 = 0x18;

pub const ORPHAN_ITEM: u8 = 0x30;

pub const DIR_LOG_ITEM: u8 = 0x3C;

pub const DIR_LOG_INDEX: u8 = 0x48;

pub const DIR_ITEM: u8 = 0x54;

pub const DIR_INDEX: u8 = 0x60;

pub const EXTENT_DATA: u8 = 0x6C;

pub const EXTENT_CSUM: u8 = 0x80;

pub const ROOT_ITEM: u8 = 0x84;

pub const ROOT_BACKREF: u8 = 0x90;

pub const ROOT_REF: u8 = 0x9C;

pub const EXTENT_ITEM: u8 = 0xA8;

pub const METADATA_ITEM: u8 = 0xA9;

pub const TREE_BLOCK_REF: u8 = 0xB0;

pub const EXTENT_DATA_REF: u8 = 0xB2;

pub const SHARED_BLOCK_REF: u8 = 0xB6;

pub const SHARED_DATA_REF: u8 = 0xB8;

pub const BLOCK_GROUP_ITEM: u8 = 0xC0;

pub const DEV_EXTENT: u8 = 0xCC;

pub const DEV_ITEM: u8 = 0xD8;

pub const CHUNK_ITEM: u8 = 0xE4;

pub const STRING_ITEM: u8 = 0xFD;

} // verus!
