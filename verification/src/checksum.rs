//! CRC32c checksums.
//!
//! Nodes and the superblock place a 32-byte checksum field at offset 0
//! and hash everything from offset 0x20 onward, so verification never
//! copies. Only the first four bytes of the field are used by CRC32c.

use vstd::prelude::*;
use vstd::slice::slice_subrange;

use crate::bytes::{le_u16, le_u32, spec_le_u16, spec_le_u32};
use crate::error::BtrfsError;

verus! {

/// The CRC-32-Castagnoli checksum of a byte sequence.
pub uninterp spec fn crc32c_of(data: Seq<u8>) -> u32;

/// The CRC-32-Castagnoli checksum of a byte sequence, continued from a
/// previous checksum value.
pub uninterp spec fn crc32c_append_of(seed: u32, data: Seq<u8>) -> u32;

/// Relies on `crc32c::crc32c`: the CRC-32-Castagnoli of the buffer.
/// Its source documents it as `crc32c_append(0, data)`, and an empty
/// buffer leaves the seed unchanged, so the empty checksum is 0.
#[verifier::external_body]
pub fn crc32c(data: &[u8]) -> (r: u32)
    ensures
        r == crc32c_of(data@),
        r == crc32c_append_of(0, data@),
        data@.len() == 0 ==> r == 0,
{
    crc32c::crc32c(data)
}

/// Relies on `crc32c::crc32c_append`: continues a CRC-32-Castagnoli
/// computation from `crc`; an empty buffer returns the seed
/// unchanged. Its documented purpose is incremental hashing: starting
/// from the checksum of an earlier buffer yields the checksum of the
/// concatenation, as the crate's own streaming reader relies on.
#[verifier::external_body]
pub fn crc32c_append(crc: u32, data: &[u8]) -> (r: u32)
    ensures
        r == crc32c_append_of(crc, data@),
        data@.len() == 0 ==> r == crc,
        forall|prefix: Seq<u8>| crc == crc32c_of(prefix) ==> r == crc32c_of(prefix + data@),
{
    crc32c::crc32c_append(crc, data)
}

/// Checksum algorithms named by the superblock's checksum type field.
#[derive(Debug, Clone, Copy, PartialEq, Eq, Structural)]
pub enum Checksum {
    /// CRC32c (Castagnoli); the only algorithm this reader computes.
    Crc32c,
    /// XXHash64.
    XxHash64,
    /// SHA256.
    Sha256,
    /// Blake2b.
    Blake2b,
}

impl Checksum {
    /// Maps the superblock's numeric checksum type to the algorithm.
    /// Unknown values are an unsupported feature.
    pub fn from_type(csum_type: u16) -> (r: Result<Self, BtrfsError>)
        ensures
            r is Ok <==> csum_type <= 3,
            csum_type == 0 ==> r == Ok::<Self, BtrfsError>(Checksum::Crc32c),
            csum_type == 1 ==> r == Ok::<Self, BtrfsError>(Checksum::XxHash64),
            csum_type == 2 ==> r == Ok::<Self, BtrfsError>(Checksum::Sha256),
            csum_type == 3 ==> r == Ok::<Self, BtrfsError>(Checksum::Blake2b),
            r is Err ==> r->Err_0 is UnsupportedFeature,
    {
        match csum_type {
            0u16 => Ok(Checksum::Crc32c),
            1u16 => Ok(Checksum::XxHash64),
            2u16 => Ok(Checksum::Sha256),
            3u16 => Ok(Checksum::Blake2b),
            _ => Err(BtrfsError::UnsupportedFeature("unknown checksum type".to_owned())),
        }
    }

    /// The size of the checksum value in bytes.
    pub fn size(&self) -> (r: usize)
        ensures
            self is Crc32c ==> r == 4,
            self is XxHash64 ==> r == 8,
            self is Sha256 ==> r == 32,
            self is Blake2b ==> r == 32,
    {
        match self {
            Checksum::Crc32c => 4,
            Checksum::XxHash64 => 8,
            Checksum::Sha256 => 32,
            Checksum::Blake2b => 32,
        }
    }
}

/// Checks a buffer against an expected CRC32c value.
pub fn verify_crc32c(data: &[u8], expected: u32) -> (r: Result<(), BtrfsError>)
    ensures
        r is Ok <==> expected == crc32c_of(data@),
        r is Err ==> r->Err_0 == (BtrfsError::ChecksumMismatch {
            expected,
            actual: crc32c_of(data@),
        }),
{
    let actual = crc32c(data);
    if actual != expected {
        return Err(BtrfsError::ChecksumMismatch { expected, actual });
    }
    Ok(())
}

/// The checksum a node's stored value must equal: the CRC32c of
/// everything after the checksum field at offset 0x20.
pub open spec fn spec_node_checksum(data: Seq<u8>) -> u32 {
    if data.len() > 0x20 {
        crc32c_of(data.skip(0x20))
    } else {
        0
    }
}

/// Computes the checksum of a tree node's bytes: the CRC32c of the
/// range from offset 0x20 to the end, or 0 if the node is shorter.
pub fn compute_node_checksum(data: &[u8]) -> (r: u32)
    ensures
        r == spec_node_checksum(data@),
{
    let n: usize = data.len();
    if n > 0x20 {
        crc32c(slice_subrange(data, 0x20, n))
    } else {
        0
    }
}

/// Holds iff a node's stored checksum (little-endian in its first four
/// bytes) matches the CRC32c of the rest of the node.
pub open spec fn node_checksum_ok(data: Seq<u8>) -> bool {
    spec_le_u32(data, 0) == spec_node_checksum(data)
}

/// Verifies a tree node's checksum. The stored little-endian value in
/// the first four bytes must equal the CRC32c of `[0x20, len)`; a node
/// shorter than 0x24 bytes is corrupt.
pub fn verify_node_checksum(data: &[u8]) -> (r: Result<(), BtrfsError>)
    ensures
        data@.len() < 0x24 ==> r is Err && r->Err_0 is Corrupt,
        data@.len() >= 0x24 ==> (r is Ok <==> node_checksum_ok(data@)),
        data@.len() >= 0x24 && r is Err ==> r->Err_0 == (BtrfsError::ChecksumMismatch {
            expected: spec_le_u32(data@, 0),
            actual: spec_node_checksum(data@),
        }),
{
    let n: usize = data.len();
    if n < 0x24 {
        return Err(BtrfsError::Corrupt("node too small for checksum".to_owned()));
    }
    let expected = le_u32(data, 0);
    let actual = compute_node_checksum(data);
    if expected != actual {
        return Err(BtrfsError::ChecksumMismatch { expected, actual });
    }
    Ok(())
}

/// Holds iff a 4096-byte superblock image's stored checksum matches
/// the CRC32c of `[0x20, 0x1000)`.
pub open spec fn superblock_checksum_ok(data: Seq<u8>) -> bool {
    spec_le_u32(data, 0) == crc32c_of(data.subrange(0x20, 0x1000))
}

/// Verifies a superblock's checksum over `[0x20, 0x1000)`. Only
/// checksum type 0 (CRC32c, stored at offset 0xC4) is accepted; any
/// other type is an unsupported feature.
pub fn verify_superblock_checksum(data: &[u8]) -> (r: Result<(), BtrfsError>)
    ensures
        data@.len() < 0x1000 ==> r is Err && r->Err_0 is Corrupt,
        data@.len() >= 0x1000 && spec_le_u16(data@, 0xC4) != 0 ==> r is Err
            && r->Err_0 is UnsupportedFeature,
        data@.len() >= 0x1000 && spec_le_u16(data@, 0xC4) == 0 ==> (r is Ok <==>
            superblock_checksum_ok(data@)),
        data@.len() >= 0x1000 && spec_le_u16(data@, 0xC4) == 0 && r is Err ==> r->Err_0 == (
        BtrfsError::ChecksumMismatch {
            expected: spec_le_u32(data@, 0),
            actual: crc32c_of(data@.subrange(0x20, 0x1000)),
        }),
{
    let n: usize = data.len();
    if n < 0x1000 {
        return Err(BtrfsError::Corrupt("superblock too small".to_owned()));
    }
    let csum_type = le_u16(data, 0xC4);
    if csum_type != 0 {
        return Err(BtrfsError::UnsupportedFeature("unsupported checksum type".to_owned()));
    }
    let expected = le_u32(data, 0);
    let actual = crc32c(slice_subrange(data, 0x20, 0x1000));
    if expected != actual {
        return Err(BtrfsError::ChecksumMismatch { expected, actual });
    }
    Ok(())
}

} // verus!
