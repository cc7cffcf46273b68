//! Superblock parsing and validation.
//!
//! The primary superblock is a 4096-byte structure at physical offset
//! 0x10000, with mirrors at 0x4000000 and 0x4000000000. Parsing
//! checks the magic at offset 0x40 and the CRC32c checksum over
//! `[0x20, 0x1000)`, then exposes accessors and the bootstrap
//! sys-chunk-array.

use vstd::prelude::*;
use vstd::slice::slice_subrange;
use vstd::utf8::{encode_utf8, valid_utf8};

use crate::bytes::{bytes_eq, copy_bytes, le_u16, le_u32, le_u64};
use crate::bytes::{spec_le_u16, spec_le_u32, spec_le_u64};
use crate::checksum::{crc32c_of, superblock_checksum_ok, verify_superblock_checksum};
use crate::device::BlockDevice;
use crate::error::BtrfsError;
use crate::strutil::utf8_str;
use crate::{btrfs_magic, magic_seq, SUPERBLOCK_OFFSET};

verus! {

/// Size of the superblock structure in bytes.
pub const SUPERBLOCK_SIZE: usize = 0x1000;

/// The checksum type value naming CRC32c.
pub const CSUM_TYPE_CRC32C: u16 = 0;

/// The decoded fields of the on-disk superblock, in on-disk order.
#[derive(Debug, Clone)]
pub struct SuperblockRaw {
    /// Checksum of everything from offset 0x20 to 0x1000 (32 bytes).
    pub csum: Vec<u8>,
    /// Filesystem UUID (16 bytes).
    pub fsid: Vec<u8>,
    /// Physical address this superblock was written at.
    pub bytenr: u64,
    /// Flags.
    pub flags: u64,
    /// Magic bytes, `_BHRfS_M` (8 bytes).
    pub magic: Vec<u8>,
    /// Generation number.
    pub generation: u64,
    /// Logical address of the root tree root.
    pub root: u64,
    /// Logical address of the chunk tree root.
    pub chunk_root: u64,
    /// Logical address of the log tree root.
    pub log_root: u64,
    /// Log root transaction id.
    pub log_root_transid: u64,
    /// Total bytes in the filesystem.
    pub total_bytes: u64,
    /// Bytes used.
    pub bytes_used: u64,
    /// Root directory object id.
    pub root_dir_objectid: u64,
    /// Number of devices.
    pub num_devices: u64,
    /// Sector size in bytes.
    pub sector_size: u32,
    /// Node size in bytes.
    pub node_size: u32,
    /// Leaf size (unused; equals the node size).
    pub leaf_size: u32,
    /// Stripe size.
    pub stripe_size: u32,
    /// Number of used bytes of the sys-chunk-array.
    pub sys_chunk_array_size: u32,
    /// Chunk root generation.
    pub chunk_root_generation: u64,
    /// Compatible feature flags.
    pub compat_flags: u64,
    /// Compatible read-only feature flags.
    pub compat_ro_flags: u64,
    /// Incompatible feature flags.
    pub incompat_flags: u64,
    /// Checksum type; 0 is CRC32c.
    pub csum_type: u16,
    /// Level of the root tree root.
    pub root_level: u8,
    /// Level of the chunk tree root.
    pub chunk_root_level: u8,
    /// Level of the log tree root.
    pub log_root_level: u8,
    /// Device item for this device (0x62 bytes).
    pub dev_item: Vec<u8>,
    /// Label (256 bytes, NUL-terminated).
    pub label: Vec<u8>,
    /// Cache generation.
    pub cache_generation: u64,
    /// UUID tree generation.
    pub uuid_tree_generation: u64,
    /// Bootstrap chunks: packed `(key, chunk-item)` pairs (0x800 bytes).
    pub sys_chunk_array: Vec<u8>,
}

/// Holds iff `r` carries the fields serialized in `data` at their
/// on-disk offsets.
pub open spec fn raw_parsed(data: Seq<u8>, r: SuperblockRaw) -> bool {
    &&& r.csum@ == data.subrange(0x00, 0x20)
    &&& r.fsid@ == data.subrange(0x20, 0x30)
    &&& r.bytenr == spec_le_u64(data, 0x30)
    &&& r.flags == spec_le_u64(data, 0x38)
    &&& r.magic@ == data.subrange(0x40, 0x48)
    &&& r.generation == spec_le_u64(data, 0x48)
    &&& r.root == spec_le_u64(data, 0x50)
    &&& r.chunk_root == spec_le_u64(data, 0x58)
    &&& r.log_root == spec_le_u64(data, 0x60)
    &&& r.log_root_transid == spec_le_u64(data, 0x68)
    &&& r.total_bytes == spec_le_u64(data, 0x70)
    &&& r.bytes_used == spec_le_u64(data, 0x78)
    &&& r.root_dir_objectid == spec_le_u64(data, 0x80)
    &&& r.num_devices == spec_le_u64(data, 0x88)
    &&& r.sector_size == spec_le_u32(data, 0x90)
    &&& r.node_size == spec_le_u32(data, 0x94)
    &&& r.leaf_size == spec_le_u32(data, 0x98)
    &&& r.stripe_size == spec_le_u32(data, 0x9C)
    &&& r.sys_chunk_array_size == spec_le_u32(data, 0xA0)
    &&& r.chunk_root_generation == spec_le_u64(data, 0xA4)
    &&& r.compat_flags == spec_le_u64(data, 0xAC)
    &&& r.compat_ro_flags == spec_le_u64(data, 0xB4)
    &&& r.incompat_flags == spec_le_u64(data, 0xBC)
    &&& r.csum_type == spec_le_u16(data, 0xC4)
    &&& r.root_level == data[0xC6]
    &&& r.chunk_root_level == data[0xC7]
    &&& r.log_root_level == data[0xC8]
    &&& r.dev_item@ == data.subrange(0xC9, 0x12B)
    &&& r.label@ == data.subrange(0x12B, 0x22B)
    &&& r.cache_generation == spec_le_u64(data, 0x22B)
    &&& r.uuid_tree_generation == spec_le_u64(data, 0x233)
    &&& r.sys_chunk_array@ == data.subrange(0x32B, 0xB2B)
}

/// The index of the first NUL byte of `s` at or after `i`, or
/// `s.len()` if none follows.
pub open spec fn first_nul_from(s: Seq<u8>, i: int) -> int
    decreases s.len() - i,
{
    if i >= s.len() {
        i
    } else if s[i] == 0 {
        i
    } else {
        first_nul_from(s, i + 1)
    }
}

proof fn lemma_first_nul(s: Seq<u8>, j: int, i: int)
    requires
        0 <= j <= i <= s.len(),
        forall|k: int| j <= k < i ==> s[k] != 0,
        i == s.len() || s[i] == 0,
    ensures
        first_nul_from(s, j) == i,
    decreases i - j,
{
    if j < i {
        lemma_first_nul(s, j + 1, i);
    }
}

/// A validated superblock.
#[derive(Debug, Clone)]
pub struct Superblock {
    /// The decoded raw fields.
    pub raw: SuperblockRaw,
}

impl Superblock {
    /// A parsed superblock is well-formed: its byte-string fields have
    /// their on-disk lengths, the checksum type is CRC32c, and the
    /// sys-chunk-array size fits its 0x800-byte field.
    pub open spec fn wf(&self) -> bool {
        &&& self.raw.csum@.len() == 0x20
        &&& self.raw.fsid@.len() == 0x10
        &&& self.raw.magic@.len() == 8
        &&& self.raw.dev_item@.len() == 0x62
        &&& self.raw.label@.len() == 0x100
        &&& self.raw.sys_chunk_array@.len() == 0x800
        &&& self.raw.magic@ == magic_seq()
        &&& self.raw.csum_type == 0
        &&& self.raw.sys_chunk_array_size <= 0x800
    }

    /// Reads and validates the primary superblock from a device.
    pub fn read<D: BlockDevice>(device: &D) -> (r: Result<Self, BtrfsError>)
        ensures
            r is Ok ==> r->Ok_0.wf(),
    {
        let buf = match device.read_at(SUPERBLOCK_OFFSET, SUPERBLOCK_SIZE) {
            Ok(b) => b,
            Err(e) => {
                return Err(BtrfsError::BlockDevice(e));
            },
        };
        Self::parse(buf.as_slice())
    }

    /// Parses and validates a superblock image.
    ///
    /// The image must be at least 4096 bytes; the magic at offset 0x40
    /// must read `_BHRfS_M`, else `InvalidMagic`; the checksum type
    /// must be CRC32c and the stored checksum must match the CRC32c of
    /// `[0x20, 0x1000)`; the sys-chunk-array size must fit its field.
    pub fn parse(data: &[u8]) -> (r: Result<Self, BtrfsError>)
        ensures
            r is Ok <==> ({
                &&& data@.len() >= 0x1000
                &&& data@.subrange(0x40, 0x48) == magic_seq()
                &&& spec_le_u16(data@, 0xC4) == 0
                &&& superblock_checksum_ok(data@)
                &&& spec_le_u32(data@, 0xA0) <= 0x800
            }),
            r is Ok ==> raw_parsed(data@, r->Ok_0.raw) && r->Ok_0.wf(),
            data@.len() < 0x1000 ==> r is Err && r->Err_0 is Corrupt,
            data@.len() >= 0x1000 && data@.subrange(0x40, 0x48) != magic_seq() ==> r == Err::<
                Self,
                BtrfsError,
            >(BtrfsError::InvalidMagic),
            data@.len() >= 0x1000 && data@.subrange(0x40, 0x48) == magic_seq() && spec_le_u16(
                data@,
                0xC4,
            ) != 0 ==> r is Err && r->Err_0 is UnsupportedFeature,
            data@.len() >= 0x1000 && data@.subrange(0x40, 0x48) == magic_seq() && spec_le_u16(
                data@,
                0xC4,
            ) == 0 && !superblock_checksum_ok(data@) ==> r is Err && r->Err_0
                == (BtrfsError::ChecksumMismatch {
                expected: spec_le_u32(data@, 0),
                actual: crc32c_of(data@.subrange(0x20, 0x1000)),
            }),
            data@.len() >= 0x1000 && data@.subrange(0x40, 0x48) == magic_seq() && spec_le_u16(
                data@,
                0xC4,
            ) == 0 && superblock_checksum_ok(data@) && spec_le_u32(data@, 0xA0) > 0x800 ==> r is Err
                && r->Err_0 is Corrupt,
    {
        let n: usize = data.len();
        if n < SUPERBLOCK_SIZE {
            return Err(BtrfsError::Corrupt("superblock too small".to_owned()));
        }
        let magic = btrfs_magic();
        if !bytes_eq(slice_subrange(data, 0x40, 0x48), magic.as_slice()) {
            return Err(BtrfsError::InvalidMagic);
        }
        match verify_superblock_checksum(data) {
            Ok(()) => (),
            Err(e) => {
                return Err(e);
            },
        }
        let sys_chunk_array_size = le_u32(data, 0xA0);
        if sys_chunk_array_size > 0x800 {
            return Err(BtrfsError::Corrupt("sys-chunk-array size too large".to_owned()));
        }
        let raw = SuperblockRaw {
            csum: copy_bytes(data, 0x00, 0x20),
            fsid: copy_bytes(data, 0x20, 0x10),
            bytenr: le_u64(data, 0x30),
            flags: le_u64(data, 0x38),
            magic: copy_bytes(data, 0x40, 8),
            generation: le_u64(data, 0x48),
            root: le_u64(data, 0x50),
            chunk_root: le_u64(data, 0x58),
            log_root: le_u64(data, 0x60),
            log_root_transid: le_u64(data, 0x68),
            total_bytes: le_u64(data, 0x70),
            bytes_used: le_u64(data, 0x78),
            root_dir_objectid: le_u64(data, 0x80),
            num_devices: le_u64(data, 0x88),
            sector_size: le_u32(data, 0x90),
            node_size: le_u32(data, 0x94),
            leaf_size: le_u32(data, 0x98),
            stripe_size: le_u32(data, 0x9C),
            sys_chunk_array_size,
            chunk_root_generation: le_u64(data, 0xA4),
            compat_flags: le_u64(data, 0xAC),
            compat_ro_flags: le_u64(data, 0xB4),
            incompat_flags: le_u64(data, 0xBC),
            csum_type: le_u16(data, 0xC4),
            root_level: data[0xC6],
            chunk_root_level: data[0xC7],
            log_root_level: data[0xC8],
            dev_item: copy_bytes(data, 0xC9, 0x62),
            label: copy_bytes(data, 0x12B, 0x100),
            cache_generation: le_u64(data, 0x22B),
            uuid_tree_generation: le_u64(data, 0x233),
            sys_chunk_array: copy_bytes(data, 0x32B, 0x800),
        };
        Ok(Superblock { raw })
    }

    /// Parses a superblock and verifies its checksum.
    pub fn parse_and_verify(data: &[u8]) -> (r: Result<Self, BtrfsError>)
        ensures
            r is Ok ==> raw_parsed(data@, r->Ok_0.raw) && r->Ok_0.wf(),
    {
        Self::parse(data)
    }

    /// The filesystem UUID (16 bytes).
    pub fn fsid(&self) -> (r: &Vec<u8>)
        ensures
            r@ == self.raw.fsid@,
    {
        &self.raw.fsid
    }

    /// The filesystem label: the bytes before the first NUL, decoded
    /// as UTF-8, or an empty string if they are not valid UTF-8.
    pub fn label(&self) -> (r: String)
        requires
            self.wf(),
        ensures
            ({
                let p = self.raw.label@.subrange(0, first_nul_from(self.raw.label@, 0));
                &&& valid_utf8(p) ==> encode_utf8(r@) == p
                &&& !valid_utf8(p) ==> r@.len() == 0
            }),
    {
        let lab: &Vec<u8> = &self.raw.label;
        let mut end: usize = 0;
        while end < 256 && lab[end] != 0
            invariant
                self.wf(),
                lab == self.raw.label,
                end <= 256,
                forall|k: int| 0 <= k < end ==> lab@[k] != 0,
            decreases 256 - end,
        {
            end = end + 1;
        }
        proof {
            lemma_first_nul(lab@, 0, end as int);
        }
        let prefix = copy_bytes(lab.as_slice(), 0, end);
        match utf8_str(prefix.as_slice()) {
            Some(s) => s.to_owned(),
            None => String::new(),
        }
    }

    /// The generation number.
    pub fn generation(&self) -> (r: u64)
        ensures
            r == self.raw.generation,
    {
        self.raw.generation
    }

    /// The logical address of the root tree root.
    pub fn root(&self) -> (r: u64)
        ensures
            r == self.raw.root,
    {
        self.raw.root
    }

    /// The logical address of the chunk tree root.
    pub fn chunk_root(&self) -> (r: u64)
        ensures
            r == self.raw.chunk_root,
    {
        self.raw.chunk_root
    }

    /// The logical address of the log tree root.
    pub fn log_root(&self) -> (r: u64)
        ensures
            r == self.raw.log_root,
    {
        self.raw.log_root
    }

    /// The total bytes of the filesystem.
    pub fn total_bytes(&self) -> (r: u64)
        ensures
            r == self.raw.total_bytes,
    {
        self.raw.total_bytes
    }

    /// The used bytes of the filesystem.
    pub fn bytes_used(&self) -> (r: u64)
        ensures
            r == self.raw.bytes_used,
    {
        self.raw.bytes_used
    }

    /// The root directory object id.
    pub fn root_dir_objectid(&self) -> (r: u64)
        ensures
            r == self.raw.root_dir_objectid,
    {
        self.raw.root_dir_objectid
    }

    /// The number of devices.
    pub fn num_devices(&self) -> (r: u64)
        ensures
            r == self.raw.num_devices,
    {
        self.raw.num_devices
    }

    /// The sector size in bytes.
    pub fn sector_size(&self) -> (r: u32)
        ensures
            r == self.raw.sector_size,
    {
        self.raw.sector_size
    }

    /// The node size in bytes.
    pub fn node_size(&self) -> (r: u32)
        ensures
            r == self.raw.node_size,
    {
        self.raw.node_size
    }

    /// The level of the root tree root.
    pub fn root_level(&self) -> (r: u8)
        ensures
            r == self.raw.root_level,
    {
        self.raw.root_level
    }

    /// The level of the chunk tree root.
    pub fn chunk_root_level(&self) -> (r: u8)
        ensures
            r == self.raw.chunk_root_level,
    {
        self.raw.chunk_root_level
    }

    /// The chunk root generation.
    pub fn chunk_root_generation(&self) -> (r: u64)
        ensures
            r == self.raw.chunk_root_generation,
    {
        self.raw.chunk_root_generation
    }

    /// The number of used bytes of the sys-chunk-array.
    pub fn sys_chunk_array_size(&self) -> (r: u32)
        ensures
            r == self.raw.sys_chunk_array_size,
    {
        self.raw.sys_chunk_array_size
    }

    /// The used prefix of the bootstrap sys-chunk-array.
    pub fn sys_chunk_array(&self) -> (r: &[u8])
        requires
            self.wf(),
        ensures
            r@ == self.raw.sys_chunk_array@.subrange(0, self.raw.sys_chunk_array_size as int),
    {
        slice_subrange(
            self.raw.sys_chunk_array.as_slice(),
            0,
            self.raw.sys_chunk_array_size as usize,
        )
    }

    /// The compatible feature flags.
    pub fn compat_flags(&self) -> (r: u64)
        ensures
            r == self.raw.compat_flags,
    {
        self.raw.compat_flags
    }

    /// The compatible read-only feature flags.
    pub fn compat_ro_flags(&self) -> (r: u64)
        ensures
            r == self.raw.compat_ro_flags,
    {
        self.raw.compat_ro_flags
    }

    /// The incompatible feature flags.
    pub fn incompat_flags(&self) -> (r: u64)
        ensures
            r == self.raw.incompat_flags,
    {
        self.raw.incompat_flags
    }

    /// The checksum type.
    pub fn csum_type(&self) -> (r: u16)
        ensures
            r == self.raw.csum_type,
    {
        self.raw.csum_type
    }

    /// The decoded raw fields.
    pub fn raw(&self) -> (r: &SuperblockRaw)
        ensures
            r == &self.raw,
    {
        &self.raw
    }
}

} // verus!
