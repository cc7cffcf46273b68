//! Flag bits of an extent item.

use vstd::prelude::*;

verus! {

pub const DATA: u64 = 1 << 0;

pub const TREE_BLOCK: u64 = 1 << 1;

pub const FULL_BACKREF: u64 = 1 << 8;

} // verus!
