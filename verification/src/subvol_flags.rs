//! Flag bits of a root item.

use vstd::prelude::*;

verus! {

/// The subvolume is read-only.
pub const RDONLY: u64 = 1 << 0;

} // verus!
