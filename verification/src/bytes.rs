//! Little-endian decoding of fixed-width integers at explicit byte
//! offsets, with bounds carried in the contracts.
//!
//! Every on-disk structure of the format is packed little-endian; all
//! decoders are layered on these functions.

use vstd::prelude::*;
use vstd::bytes::{spec_u16_from_le_bytes, spec_u32_from_le_bytes, spec_u64_from_le_bytes};
use vstd::bytes::{u16_from_le_bytes, u32_from_le_bytes, u64_from_le_bytes};
use vstd::slice::{slice_subrange, slice_to_vec};

verus! {

/// The little-endian `u16` held at byte offset `off` of `data`.
pub open spec fn spec_le_u16(data: Seq<u8>, off: int) -> u16 {
    spec_u16_from_le_bytes(data.subrange(off, off + 2))
}

/// The little-endian `u32` held at byte offset `off` of `data`.
pub open spec fn spec_le_u32(data: Seq<u8>, off: int) -> u32 {
    spec_u32_from_le_bytes(data.subrange(off, off + 4))
}

/// The little-endian `u64` held at byte offset `off` of `data`.
pub open spec fn spec_le_u64(data: Seq<u8>, off: int) -> u64 {
    spec_u64_from_le_bytes(data.subrange(off, off + 8))
}

/// The little-endian `i64` held at byte offset `off` of `data`.
pub open spec fn spec_le_i64(data: Seq<u8>, off: int) -> i64 {
    spec_le_u64(data, off) as i64
}

/// Reads the little-endian `u16` at byte offset `off`.
pub fn le_u16(data: &[u8], off: usize) -> (r: u16)
    requires
        off + 2 <= data@.len(),
    ensures
        r == spec_le_u16(data@, off as int),
{
    // Binding the length teaches the prover the offsets fit in usize.
    let _n: usize = data.len();
    u16_from_le_bytes(slice_subrange(data, off, off + 2))
}

/// Reads the little-endian `u32` at byte offset `off`.
pub fn le_u32(data: &[u8], off: usize) -> (r: u32)
    requires
        off + 4 <= data@.len(),
    ensures
        r == spec_le_u32(data@, off as int),
{
    let _n: usize = data.len();
    u32_from_le_bytes(slice_subrange(data, off, off + 4))
}

/// Reads the little-endian `u64` at byte offset `off`.
pub fn le_u64(data: &[u8], off: usize) -> (r: u64)
    requires
        off + 8 <= data@.len(),
    ensures
        r == spec_le_u64(data@, off as int),
{
    let _n: usize = data.len();
    u64_from_le_bytes(slice_subrange(data, off, off + 8))
}

/// Reads the little-endian `i64` at byte offset `off`.
pub fn le_i64(data: &[u8], off: usize) -> (r: i64)
    requires
        off + 8 <= data@.len(),
    ensures
        r == spec_le_i64(data@, off as int),
{
    le_u64(data, off) as i64
}

/// Copies `len` bytes starting at offset `off` into an owned vector.
pub fn copy_bytes(data: &[u8], off: usize, len: usize) -> (r: Vec<u8>)
    requires
        off + len <= data@.len(),
    ensures
        r@ == data@.subrange(off as int, off as int + len as int),
{
    let _n: usize = data.len();
    slice_to_vec(slice_subrange(data, off, off + len))
}

/// Compares two byte slices for equality, byte for byte.
pub fn bytes_eq(a: &[u8], b: &[u8]) -> (r: bool)
    ensures
        r == (a@ == b@),
{
    if a.len() != b.len() {
        proof {
            assert(a@.len() != b@.len());
        }
        return false;
    }
    let n: usize = a.len();
    let mut i: usize = 0;
    while i < n
        invariant
            n == a@.len(),
            n == b@.len(),
            i <= n,
            forall|j: int| 0 <= j < i ==> a@[j] == b@[j],
        decreases n - i,
    {
        if a[i] != b[i] {
            proof {
                assert(a@[i as int] != b@[i as int]);
            }
            return false;
        }
        i = i + 1;
    }
    proof {
        assert(a@ =~= b@);
    }
    true
}

} // verus!
