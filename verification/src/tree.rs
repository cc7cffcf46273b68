//! B-tree structures: keys, node headers, key pointers, item headers,
//! parsed nodes, and the search engine over any tree root.
//!
//! A node is a node-size block. Its 101-byte header is followed, in an
//! internal node, by 33-byte key pointers, and in a leaf by 25-byte
//! item headers growing forward while item data grows backward from
//! the node's end; a leaf's data offsets are relative to the end of
//! the header.

use vstd::prelude::*;
use vstd::slice::slice_subrange;

use crate::bytes::{bytes_eq, copy_bytes, le_u32, le_u64};
use crate::bytes::{spec_le_u32, spec_le_u64};
use crate::checksum::{node_checksum_ok, verify_node_checksum};
use crate::device::BlockDevice;
use crate::error::BtrfsError;
use crate::fs::BtrfsFilesystem;
use crate::incompat;

verus! {

/// Size of a node header in bytes.
pub const NODE_HEADER_SIZE: usize = 0x65;

/// Size of a key pointer in internal nodes.
pub const KEY_PTR_SIZE: usize = 0x21;

/// Size of an item header in leaf nodes.
pub const ITEM_SIZE: usize = 0x19;

/// Size of a serialized key.
pub const KEY_SIZE: usize = 0x11;

/// The well-known trees, by root-tree object id.
#[derive(Debug, Clone, Copy, PartialEq, Eq, Structural)]
pub enum TreeType {
    Root,
    Extent,
    Chunk,
    Dev,
    Fs,
    Csum,
    Quota,
    Uuid,
    FreeSpace,
    BlockGroup,
    Unknown(u64),
}

impl TreeType {
    /// Maps a tree object id to its well-known tree, or `Unknown`.
    pub fn from_objectid(objectid: u64) -> (r: Self)
        ensures
            objectid == 1 ==> r == TreeType::Root,
            objectid == 2 ==> r == TreeType::Extent,
            objectid == 3 ==> r == TreeType::Chunk,
            objectid == 4 ==> r == TreeType::Dev,
            objectid == 5 ==> r == TreeType::Fs,
            objectid == 7 ==> r == TreeType::Csum,
            objectid == 8 ==> r == TreeType::Quota,
            objectid == 9 ==> r == TreeType::Uuid,
            objectid == 10 ==> r == TreeType::FreeSpace,
            objectid == 0 || objectid == 6 || objectid > 10 ==> r == TreeType::Unknown(objectid),
    {
        match objectid {
            1u64 => TreeType::Root,
            2u64 => TreeType::Extent,
            3u64 => TreeType::Chunk,
            4u64 => TreeType::Dev,
            5u64 => TreeType::Fs,
            7u64 => TreeType::Csum,
            8u64 => TreeType::Quota,
            9u64 => TreeType::Uuid,
            10u64 => TreeType::FreeSpace,
            _ => TreeType::Unknown(objectid),
        }
    }
}

/// A B-tree key: `(objectid, item_type, offset)`, ordered
/// lexicographically, serialized little-endian in 17 bytes.
#[derive(Debug, Clone, Copy, PartialEq, Eq, Structural, Hash)]
pub struct BtrfsKey {
    /// Object id: the subject of the item.
    pub objectid: u64,
    /// Item type byte.
    pub item_type: u8,
    /// Offset; its meaning depends on the item type.
    pub offset: u64,
}

/// Lexicographic order on keys: `a` before or equal to `b`.
pub open spec fn key_le(a: BtrfsKey, b: BtrfsKey) -> bool {
    ||| a.objectid < b.objectid
    ||| (a.objectid == b.objectid && a.item_type < b.item_type)
    ||| (a.objectid == b.objectid && a.item_type == b.item_type && a.offset <= b.offset)
}

/// Lexicographic order on keys: `a` strictly before `b`.
pub open spec fn key_lt(a: BtrfsKey, b: BtrfsKey) -> bool {
    key_le(a, b) && a != b
}

/// The key serialized at byte offset `off`: objectid, type byte,
/// offset, packed little-endian.
pub open spec fn spec_key_at(data: Seq<u8>, off: int) -> BtrfsKey {
    BtrfsKey {
        objectid: spec_le_u64(data, off),
        item_type: data[off + 8],
        offset: spec_le_u64(data, off + 9),
    }
}

impl BtrfsKey {
    /// Builds a key from its three fields.
    pub fn new(objectid: u64, item_type: u8, offset: u64) -> (r: Self)
        ensures
            r == (BtrfsKey { objectid, item_type, offset }),
    {
        BtrfsKey { objectid, item_type, offset }
    }

    /// Parses a key from the first 17 bytes of `data`.
    pub fn from_bytes(data: &[u8]) -> (r: Result<Self, BtrfsError>)
        ensures
            r is Ok <==> data@.len() >= KEY_SIZE,
            r is Ok ==> r->Ok_0 == spec_key_at(data@, 0),
            r is Err ==> r->Err_0 is Corrupt,
    {
        let n: usize = data.len();
        if n < KEY_SIZE {
            return Err(BtrfsError::Corrupt("key data too small".to_owned()));
        }
        Ok(key_at(data, 0))
    }

    /// The smallest possible key.
    pub fn min() -> (r: Self)
        ensures
            r == (BtrfsKey { objectid: 0, item_type: 0, offset: 0 }),
            forall|k: BtrfsKey| key_le(r, k),
    {
        BtrfsKey { objectid: 0, item_type: 0, offset: 0 }
    }

    /// The largest possible key.
    pub fn max() -> (r: Self)
        ensures
            r == (BtrfsKey { objectid: u64::MAX, item_type: u8::MAX, offset: u64::MAX }),
            forall|k: BtrfsKey| key_le(k, r),
    {
        BtrfsKey { objectid: 0xffff_ffff_ffff_ffffu64, item_type: 0xffu8, offset: 0xffff_ffff_ffff_ffffu64 }
    }
}

impl PartialOrd for BtrfsKey {
    fn partial_cmp(&self, other: &Self) -> (r: Option<core::cmp::Ordering>) {
        if self.objectid < other.objectid {
            Some(core::cmp::Ordering::Less)
        } else if self.objectid > other.objectid {
            Some(core::cmp::Ordering::Greater)
        } else if self.item_type < other.item_type {
            Some(core::cmp::Ordering::Less)
        } else if self.item_type > other.item_type {
            Some(core::cmp::Ordering::Greater)
        } else if self.offset < other.offset {
            Some(core::cmp::Ordering::Less)
        } else if self.offset > other.offset {
            Some(core::cmp::Ordering::Greater)
        } else {
            Some(core::cmp::Ordering::Equal)
        }
    }
}

impl vstd::std_specs::cmp::PartialOrdSpecImpl for BtrfsKey {
    open spec fn obeys_partial_cmp_spec() -> bool {
        true
    }

    open spec fn partial_cmp_spec(&self, other: &Self) -> Option<core::cmp::Ordering> {
        if *self == *other {
            Some(core::cmp::Ordering::Equal)
        } else if key_lt(*self, *other) {
            Some(core::cmp::Ordering::Less)
        } else {
            Some(core::cmp::Ordering::Greater)
        }
    }
}

/// Parses the key serialized at byte offset `off`.
pub fn key_at(data: &[u8], off: usize) -> (r: BtrfsKey)
    requires
        off + KEY_SIZE <= data@.len(),
    ensures
        r == spec_key_at(data@, off as int),
{
    let _n: usize = data.len();
    let objectid = le_u64(data, off);
    let item_type = data[off + 8];
    let offset = le_u64(data, off + 9);
    BtrfsKey { objectid, item_type, offset }
}

/// Compares two keys: `a` strictly before `b`.
pub fn key_before(a: &BtrfsKey, b: &BtrfsKey) -> (r: bool)
    ensures
        r == key_lt(*a, *b),
{
    if a.objectid != b.objectid {
        a.objectid < b.objectid
    } else if a.item_type != b.item_type {
        a.item_type < b.item_type
    } else {
        a.offset < b.offset
    }
}

/// A node header: checksum, filesystem UUID, self address, flags,
/// backref revision, chunk tree UUID, generation, owner, item count,
/// and level (0 for a leaf).
#[derive(Debug, Clone)]
pub struct NodeHeader {
    /// Stored checksum (32 bytes; CRC32c uses the first four).
    pub csum: Vec<u8>,
    /// Filesystem UUID (16 bytes).
    pub fsid: Vec<u8>,
    /// Logical address of this node.
    pub bytenr: u64,
    /// Flags (7 bytes).
    pub flags: Vec<u8>,
    /// Backref revision.
    pub backref_rev: u8,
    /// Chunk tree UUID (16 bytes).
    pub chunk_tree_uuid: Vec<u8>,
    /// Generation that wrote this node.
    pub generation: u64,
    /// Object id of the owning tree.
    pub owner: u64,
    /// Number of items or key pointers in the node.
    pub nritems: u32,
    /// Level in the tree; 0 is a leaf.
    pub level: u8,
}

/// Holds iff `h` is the header serialized in the first 101 bytes of
/// `data`.
pub open spec fn header_parsed(data: Seq<u8>, h: NodeHeader) -> bool {
    &&& h.csum@ == data.subrange(0, 0x20)
    &&& h.fsid@ == data.subrange(0x20, 0x30)
    &&& h.bytenr == spec_le_u64(data, 0x30)
    &&& h.flags@ == data.subrange(0x38, 0x3F)
    &&& h.backref_rev == data[0x3F]
    &&& h.chunk_tree_uuid@ == data.subrange(0x40, 0x50)
    &&& h.generation == spec_le_u64(data, 0x50)
    &&& h.owner == spec_le_u64(data, 0x58)
    &&& h.nritems == spec_le_u32(data, 0x60)
    &&& h.level == data[0x64]
}

impl NodeHeader {
    /// Parses a node header from the first 101 bytes of `data`.
    pub fn from_bytes(data: &[u8]) -> (r: Result<Self, BtrfsError>)
        ensures
            r is Ok <==> data@.len() >= NODE_HEADER_SIZE,
            r is Ok ==> header_parsed(data@, r->Ok_0),
            r is Err ==> r->Err_0 is Corrupt,
    {
        let n: usize = data.len();
        if n < NODE_HEADER_SIZE {
            return Err(BtrfsError::Corrupt("node header too small".to_owned()));
        }
        Ok(NodeHeader {
            csum: copy_bytes(data, 0, 0x20),
            fsid: copy_bytes(data, 0x20, 0x10),
            bytenr: le_u64(data, 0x30),
            flags: copy_bytes(data, 0x38, 7),
            backref_rev: data[0x3F],
            chunk_tree_uuid: copy_bytes(data, 0x40, 0x10),
            generation: le_u64(data, 0x50),
            owner: le_u64(data, 0x58),
            nritems: le_u32(data, 0x60),
            level: data[0x64],
        })
    }

    /// True iff this node is a leaf.
    pub fn is_leaf(&self) -> (r: bool)
        ensures
            r == (self.level == 0),
    {
        self.level == 0
    }
}

/// A key pointer of an internal node: key, child logical address,
/// child generation; 33 bytes.
#[derive(Debug, Clone, Copy)]
pub struct KeyPtr {
    /// First key of the child subtree.
    pub key: BtrfsKey,
    /// Logical address of the child node.
    pub blockptr: u64,
    /// Generation of the child node.
    pub generation: u64,
}

/// The key pointer serialized at byte offset `off`.
pub open spec fn spec_key_ptr_at(data: Seq<u8>, off: int) -> KeyPtr {
    KeyPtr {
        key: spec_key_at(data, off),
        blockptr: spec_le_u64(data, off + 17),
        generation: spec_le_u64(data, off + 25),
    }
}

/// Parses the key pointer serialized at byte offset `off`.
pub fn key_ptr_at(data: &[u8], off: usize) -> (r: KeyPtr)
    requires
        off + KEY_PTR_SIZE <= data@.len(),
    ensures
        r == spec_key_ptr_at(data@, off as int),
{
    let _n: usize = data.len();
    KeyPtr { key: key_at(data, off), blockptr: le_u64(data, off + 17), generation: le_u64(data, off + 25) }
}

impl KeyPtr {
    /// Parses a key pointer from the first 33 bytes of `data`.
    pub fn from_bytes(data: &[u8]) -> (r: Result<Self, BtrfsError>)
        ensures
            r is Ok <==> data@.len() >= KEY_PTR_SIZE,
            r is Ok ==> r->Ok_0 == spec_key_ptr_at(data@, 0),
            r is Err ==> r->Err_0 is Corrupt,
    {
        let n: usize = data.len();
        if n < KEY_PTR_SIZE {
            return Err(BtrfsError::Corrupt("key pointer too small".to_owned()));
        }
        Ok(key_ptr_at(data, 0))
    }
}

/// An item header of a leaf: key, data offset (relative to the end of
/// the header block), data size; 25 bytes.
#[derive(Debug, Clone, Copy)]
pub struct Item {
    /// The item's key.
    pub key: BtrfsKey,
    /// Offset of the item's data, relative to the end of the header.
    pub offset: u32,
    /// Size of the item's data in bytes.
    pub size: u32,
}

/// The item header serialized at byte offset `off`.
pub open spec fn spec_item_at(data: Seq<u8>, off: int) -> Item {
    Item {
        key: spec_key_at(data, off),
        offset: spec_le_u32(data, off + 17),
        size: spec_le_u32(data, off + 21),
    }
}

/// Parses the item header serialized at byte offset `off`.
pub fn item_at(data: &[u8], off: usize) -> (r: Item)
    requires
        off + ITEM_SIZE <= data@.len(),
    ensures
        r == spec_item_at(data@, off as int),
{
    let _n: usize = data.len();
    Item { key: key_at(data, off), offset: le_u32(data, off + 17), size: le_u32(data, off + 21) }
}

impl Item {
    /// Parses an item header from the first 25 bytes of `data`.
    pub fn from_bytes(data: &[u8]) -> (r: Result<Self, BtrfsError>)
        ensures
            r is Ok <==> data@.len() >= ITEM_SIZE,
            r is Ok ==> r->Ok_0 == spec_item_at(data@, 0),
            r is Err ==> r->Err_0 is Corrupt,
    {
        let n: usize = data.len();
        if n < ITEM_SIZE {
            return Err(BtrfsError::Corrupt("item header too small".to_owned()));
        }
        Ok(item_at(data, 0))
    }
}

/// Whether `nritems` entries of `entry_size` bytes fit after the
/// header of a node of `data.len()` bytes.
pub open spec fn entries_fit(data: Seq<u8>, nritems: int, entry_size: int) -> bool {
    NODE_HEADER_SIZE + nritems * entry_size <= data.len()
}

/// The `i`-th item header of a leaf node's bytes.
pub open spec fn leaf_item(data: Seq<u8>, i: int) -> Item {
    spec_item_at(data, NODE_HEADER_SIZE + i * ITEM_SIZE)
}

/// The `i`-th key pointer of an internal node's bytes.
pub open spec fn node_ptr(data: Seq<u8>, i: int) -> KeyPtr {
    spec_key_ptr_at(data, NODE_HEADER_SIZE + i * KEY_PTR_SIZE)
}

/// Whether the `nritems` item headers of a leaf carry strictly
/// increasing keys.
pub open spec fn leaf_sorted(data: Seq<u8>, nritems: int) -> bool {
    forall|i: int|
        0 <= i < nritems - 1 ==> key_lt(
            (#[trigger] leaf_item(data, i)).key,
            leaf_item(data, i + 1).key,
        )
}

/// Whether the `nritems` key pointers of an internal node carry
/// strictly increasing keys.
pub open spec fn ptrs_sorted(data: Seq<u8>, nritems: int) -> bool {
    forall|i: int|
        0 <= i < nritems - 1 ==> key_lt(
            (#[trigger] node_ptr(data, i)).key,
            node_ptr(data, i + 1).key,
        )
}

/// A checksum-verified tree node: its parsed header and its raw bytes.
#[derive(Debug)]
pub struct TreeNode {
    /// The parsed node header.
    pub header: NodeHeader,
    /// The raw bytes of the node.
    pub data: Vec<u8>,
}

impl TreeNode {
    /// The raw bytes of the node, as a sequence.
    pub open spec fn spec_data(&self) -> Seq<u8> {
        self.data@
    }

    /// A parsed node is well-formed: the bytes hold at least a header,
    /// the header is their decode, and the stored checksum matches.
    pub open spec fn wf(&self) -> bool {
        &&& self.spec_data().len() >= NODE_HEADER_SIZE
        &&& header_parsed(self.spec_data(), self.header)
        &&& node_checksum_ok(self.spec_data())
    }

    /// Parses a node from its raw bytes: verifies the checksum, then
    /// decodes the header.
    pub fn parse(data: Vec<u8>) -> (r: Result<Self, BtrfsError>)
        ensures
            r is Ok <==> (data@.len() >= NODE_HEADER_SIZE && node_checksum_ok(data@)),
            r is Ok ==> r->Ok_0.wf() && r->Ok_0.spec_data() == data@,
            r is Err ==> (r->Err_0 is Corrupt || r->Err_0 is ChecksumMismatch),
    {
        match verify_node_checksum(data.as_slice()) {
            Ok(()) => (),
            Err(e) => {
                return Err(e);
            },
        }
        let header = match NodeHeader::from_bytes(data.as_slice()) {
            Ok(h) => h,
            Err(e) => {
                return Err(e);
            },
        };
        Ok(TreeNode { header, data })
    }

    /// True iff this node is a leaf.
    pub fn is_leaf(&self) -> (r: bool)
        ensures
            r == (self.header.level == 0),
    {
        self.header.is_leaf()
    }

    /// The number of items or key pointers in this node.
    pub fn num_items(&self) -> (r: u32)
        ensures
            r == self.header.nritems,
    {
        self.header.nritems
    }

    /// The key pointers of an internal node, in order. Fails on a
    /// leaf, on pointers past the end of the node, and on keys out of
    /// order.
    pub fn key_ptrs(&self) -> (r: Result<Vec<KeyPtr>, BtrfsError>)
        requires
            self.wf(),
        ensures
            r is Ok <==> (self.header.level != 0 && entries_fit(
                self.spec_data(),
                self.header.nritems as int,
                KEY_PTR_SIZE as int,
            ) && ptrs_sorted(self.spec_data(), self.header.nritems as int)),
            r is Ok ==> ({
                let ptrs = r->Ok_0@;
                &&& ptrs.len() == self.header.nritems
                &&& forall|i: int|
                    0 <= i < ptrs.len() ==> ptrs[i] == node_ptr(self.spec_data(), i)
            }),
            r is Err ==> r->Err_0 is Corrupt,
    {
        if self.is_leaf() {
            return Err(BtrfsError::Corrupt("cannot get key pointers from leaf node".to_owned()));
        }
        let len: usize = self.data.len();
        let n: usize = self.header.nritems as usize;
        let mut ptrs: Vec<KeyPtr> = Vec::new();
        let mut off: usize = NODE_HEADER_SIZE;
        let mut i: usize = 0;
        while i < n
            invariant
                self.wf(),
                n == self.header.nritems,
                len == self.spec_data().len(),
                i <= n,
                off == NODE_HEADER_SIZE + i * KEY_PTR_SIZE,
                off <= len,
                ptrs@.len() == i,
                forall|j: int|
                    0 <= j < i ==> ptrs@[j] == node_ptr(self.spec_data(), j),
                forall|j: int|
                    0 <= j < i - 1 ==> key_lt(
                        (#[trigger] node_ptr(self.spec_data(), j)).key,
                        node_ptr(self.spec_data(), j + 1).key,
                    ),
            decreases n - i,
        {
            if len - off < KEY_PTR_SIZE {
                proof {
                    assert(!entries_fit(self.spec_data(), n as int, KEY_PTR_SIZE as int));
                }
                return Err(BtrfsError::Corrupt("key pointer past end of node".to_owned()));
            }
            let ptr = key_ptr_at(self.data.as_slice(), off);
            if i > 0 {
                let prev: KeyPtr = ptrs[i - 1];
                if !key_before(&prev.key, &ptr.key) {
                    proof {
                        assert(!ptrs_sorted(self.spec_data(), n as int));
                    }
                    return Err(BtrfsError::Corrupt("key pointers out of order".to_owned()));
                }
            }
            ptrs.push(ptr);
            off = off + KEY_PTR_SIZE;
            i = i + 1;
        }
        Ok(ptrs)
    }

    /// The item headers of a leaf, in order. Fails on an internal
    /// node, on headers past the end of the node, and on keys out of
    /// order.
    pub fn items(&self) -> (r: Result<Vec<Item>, BtrfsError>)
        requires
            self.wf(),
        ensures
            r is Ok <==> (self.header.level == 0 && entries_fit(
                self.spec_data(),
                self.header.nritems as int,
                ITEM_SIZE as int,
            ) && leaf_sorted(self.spec_data(), self.header.nritems as int)),
            r is Ok ==> ({
                let items = r->Ok_0@;
                &&& items.len() == self.header.nritems
                &&& forall|i: int|
                    0 <= i < items.len() ==> items[i] == leaf_item(self.spec_data(), i)
            }),
            r is Err ==> r->Err_0 is Corrupt,
    {
        if !self.is_leaf() {
            return Err(BtrfsError::Corrupt("cannot get items from internal node".to_owned()));
        }
        let len: usize = self.data.len();
        let n: usize = self.header.nritems as usize;
        let mut items: Vec<Item> = Vec::new();
        let mut off: usize = NODE_HEADER_SIZE;
        let mut i: usize = 0;
        while i < n
            invariant
                self.wf(),
                self.header.level == 0,
                n == self.header.nritems,
                len == self.spec_data().len(),
                i <= n,
                off == NODE_HEADER_SIZE + i * ITEM_SIZE,
                off <= len,
                items@.len() == i,
                forall|j: int|
                    0 <= j < i ==> items@[j] == leaf_item(self.spec_data(), j),
                forall|j: int|
                    0 <= j < i - 1 ==> key_lt(
                        (#[trigger] leaf_item(self.spec_data(), j)).key,
                        leaf_item(self.spec_data(), j + 1).key,
                    ),
            decreases n - i,
        {
            if len - off < ITEM_SIZE {
                proof {
                    assert(!entries_fit(self.spec_data(), n as int, ITEM_SIZE as int));
                }
                return Err(BtrfsError::Corrupt("item header past end of node".to_owned()));
            }
            let item = item_at(self.data.as_slice(), off);
            if i > 0 {
                let prev: Item = items[i - 1];
                if !key_before(&prev.key, &item.key) {
                    proof {
                        assert(!leaf_sorted(self.spec_data(), n as int));
                    }
                    return Err(BtrfsError::Corrupt("leaf keys out of order".to_owned()));
                }
            }
            items.push(item);
            off = off + ITEM_SIZE;
            i = i + 1;
        }
        Ok(items)
    }

    /// The data slice of a leaf item whose bounds lie inside the node.
    pub fn item_data(&self, item: &Item) -> (r: &[u8])
        requires
            self.wf(),
            NODE_HEADER_SIZE + item.offset + item.size <= self.spec_data().len(),
        ensures
            r@ == self.spec_data().subrange(
                NODE_HEADER_SIZE + item.offset as int,
                NODE_HEADER_SIZE + item.offset as int + item.size as int,
            ),
    {
        let len: usize = self.data.len();
        let start: usize = NODE_HEADER_SIZE + item.offset as usize;
        let end: usize = start + item.size as usize;
        slice_subrange(self.data.as_slice(), start, end)
    }

    /// An owned copy of a leaf item's data, or `CORRUPT` if the item's
    /// bounds fall outside the node.
    pub fn item_payload(&self, item: &Item) -> (r: Result<Vec<u8>, BtrfsError>)
        requires
            self.wf(),
        ensures
            r is Ok <==> NODE_HEADER_SIZE + item.offset + item.size <= self.spec_data().len(),
            r is Ok ==> r->Ok_0@ == self.spec_data().subrange(
                NODE_HEADER_SIZE + item.offset as int,
                NODE_HEADER_SIZE + item.offset as int + item.size as int,
            ),
            r is Err ==> r->Err_0 is Corrupt,
    {
        let len: usize = self.data.len();
        if item.offset as u64 + item.size as u64 > (len - NODE_HEADER_SIZE) as u64 {
            return Err(BtrfsError::Corrupt("item data past end of node".to_owned()));
        }
        let start: usize = NODE_HEADER_SIZE + item.offset as usize;
        let end: usize = start + item.size as usize;
        Ok(copy_bytes(self.data.as_slice(), start, end - start))
    }

    /// The raw bytes of the node.
    pub fn data(&self) -> (r: &[u8])
        ensures
            r@ == self.spec_data(),
    {
        self.data.as_slice()
    }
}

/// Whether a sequence of range-scan entries carries strictly
/// increasing keys.
pub open spec fn entries_sorted(s: Seq<(Item, Vec<u8>)>) -> bool {
    forall|i: int| 0 <= i < s.len() - 1 ==> key_lt((#[trigger] s[i]).0.key, s[i + 1].0.key)
}

/// Whether every entry's key lies in `[min, max]`.
pub open spec fn entries_in_range(s: Seq<(Item, Vec<u8>)>, min: BtrfsKey, max: BtrfsKey) -> bool {
    forall|i: int|
        0 <= i < s.len() ==> key_le(min, (#[trigger] s[i]).0.key) && key_le(s[i].0.key, max)
}

/// Whether a sequence of entries carries strictly decreasing keys.
pub open spec fn entries_sorted_rev(s: Seq<(Item, Vec<u8>)>) -> bool {
    forall|i: int| 0 <= i < s.len() - 1 ==> key_lt(s[i + 1].0.key, (#[trigger] s[i]).0.key)
}

/// The item headers among a leaf's first `n` whose keys lie in
/// `[min, max]`, in leaf order.
pub open spec fn in_range_prefix(data: Seq<u8>, n: int, min: BtrfsKey, max: BtrfsKey) -> Seq<Item>
    decreases n,
{
    if n <= 0 {
        Seq::<Item>::empty()
    } else {
        let it = leaf_item(data, n - 1);
        in_range_prefix(data, n - 1, min, max) + (if key_le(min, it.key) && key_le(it.key, max) {
            seq![it]
        } else {
            Seq::<Item>::empty()
        })
    }
}

/// Finds the position of the item with exactly `key` among a leaf's
/// decoded item headers: `Some` iff one carries the key.
pub fn leaf_find(items: &Vec<Item>, key: &BtrfsKey) -> (r: Option<usize>)
    ensures
        r is Some <==> exists|i: int|
            0 <= i < items@.len() && (#[trigger] items@[i]).key == *key,
        r is Some ==> r->0 < items@.len() && items@[r->0 as int].key == *key,
{
    let m: usize = items.len();
    let mut i: usize = 0;
    while i < m
        invariant
            m == items@.len(),
            i <= m,
            forall|j: int| 0 <= j < i ==> (#[trigger] items@[j]).key != *key,
        decreases m - i,
    {
        if items[i].key == *key {
            return Some(i);
        }
        i = i + 1;
    }
    None
}

/// Selects the child of an internal node for a key: the greatest
/// pointer whose key is at or before the target. A node whose first
/// pointer already lies beyond the key covers nothing and is corrupt,
/// as is one with no children.
pub fn select_child(ptrs: &Vec<KeyPtr>, key: &BtrfsKey) -> (r: Result<usize, BtrfsError>)
    ensures
        r is Ok <==> ptrs@.len() > 0 && key_le(ptrs@[0].key, *key),
        r is Ok ==> ({
            let c = r->Ok_0 as int;
            &&& c < ptrs@.len()
            &&& key_le(ptrs@[c].key, *key)
            &&& (c + 1 < ptrs@.len() ==> key_lt(*key, ptrs@[c + 1].key))
        }),
        r is Err ==> r->Err_0 is Corrupt,
{
    if ptrs.len() == 0 {
        return Err(BtrfsError::Corrupt("internal node with no children".to_owned()));
    }
    if key_before(key, &ptrs[0].key) {
        return Err(BtrfsError::Corrupt("no child covers the key".to_owned()));
    }
    let m: usize = ptrs.len();
    let mut ci: usize = 0;
    let mut j: usize = 1;
    while j < m
        invariant
            m == ptrs@.len(),
            ci < j <= m,
            key_le(ptrs@[ci as int].key, *key),
            forall|t: int| ci < t < j ==> key_lt(*key, (#[trigger] ptrs@[t]).key),
        decreases m - j,
    {
        if !key_before(key, &ptrs[j].key) {
            ci = j;
        }
        j = j + 1;
    }
    Ok(ci)
}

/// A search handle over one tree of the forest, from its root.
pub struct BtrfsTree<'a, D: BlockDevice> {
    /// The filesystem the tree lives in.
    pub fs: &'a BtrfsFilesystem<D>,
    /// Logical address of the root node.
    pub root_logical: u64,
    /// Level of the root node; 0 is a leaf.
    pub root_level: u8,
}

impl<'a, D: BlockDevice> BtrfsTree<'a, D> {
    /// Builds a tree handle from a root address and level.
    pub fn new(fs: &'a BtrfsFilesystem<D>, root_logical: u64, root_level: u8) -> (r: Self)
        ensures
            r.fs == fs,
            r.root_logical == root_logical,
            r.root_level == root_level,
    {
        BtrfsTree { fs, root_logical, root_level }
    }

    /// Reads and verifies the node at a logical address: each copy in
    /// turn until one passes the checksum, carries its own address in
    /// the header, and carries the filesystem UUID (unless the
    /// filesystem uses a separate metadata UUID).
    pub fn read_node(&self, logical: u64) -> (r: Result<TreeNode, BtrfsError>)
        requires
            self.fs.wf(),
        ensures
            r is Ok ==> ({
                let node = r->Ok_0;
                &&& node.wf()
                &&& node.header.bytenr == logical
                &&& (self.fs.superblock.raw.incompat_flags & incompat::METADATA_UUID == 0
                    ==> node.header.fsid@ == self.fs.superblock.raw.fsid@)
            }),
    {
        let copies = match self.fs.logical_to_physical(logical) {
            Ok(c) => c,
            Err(e) => {
                return Err(e);
            },
        };
        let node_size: usize = self.fs.node_size() as usize;
        let n: usize = copies.len();
        let mut i: usize = 0;
        let mut last: BtrfsError = BtrfsError::NotFound(
            "no physical mapping for logical address".to_owned(),
        );
        while i < n
            invariant
                self.fs.wf(),
                n == copies@.len(),
                i <= n,
            decreases n - i,
        {
            let (_devid, phys) = copies[i];
            match self.fs.device.read_at(phys, node_size) {
                Ok(buf) => {
                    match TreeNode::parse(buf) {
                        Ok(node) => {
                            if node.header.bytenr != logical {
                                last = BtrfsError::Corrupt(
                                    "node address does not match its header".to_owned(),
                                );
                            } else if self.fs.superblock.incompat_flags() & incompat::METADATA_UUID
                                == 0 && !bytes_eq(
                                node.header.fsid.as_slice(),
                                self.fs.superblock.fsid().as_slice(),
                            ) {
                                last = BtrfsError::Corrupt(
                                    "node filesystem UUID mismatch".to_owned(),
                                );
                            } else {
                                return Ok(node);
                            }
                        },
                        Err(e) => {
                            last = e;
                        },
                    }
                },
                Err(e) => {
                    last = BtrfsError::BlockDevice(e);
                },
            }
            i = i + 1;
        }
        Err(last)
    }

    /// Point lookup: descends from the root and returns the item with
    /// exactly the given key, with an owned copy of its data, or
    /// `None`.
    pub fn search(&self, key: &BtrfsKey) -> (r: Result<Option<(Item, Vec<u8>)>, BtrfsError>)
        requires
            self.fs.wf(),
        ensures
            r is Ok && r->Ok_0 is Some ==> (r->Ok_0->0).0.key == *key,
    {
        let mut logical: u64 = self.root_logical;
        let mut level: u8 = self.root_level;
        while level > 0
            invariant
                self.fs.wf(),
            decreases level,
        {
            let node = match self.read_node(logical) {
                Ok(nd) => nd,
                Err(e) => {
                    return Err(e);
                },
            };
            if node.header.level != level {
                return Err(BtrfsError::Corrupt("node level does not match descent".to_owned()));
            }
            let ptrs = match node.key_ptrs() {
                Ok(p) => p,
                Err(e) => {
                    return Err(e);
                },
            };
            // The greatest pointer at or before the key; a node none
            // of whose children covers the key is corrupt.
            let ci = match select_child(&ptrs, key) {
                Ok(c) => c,
                Err(e) => {
                    return Err(e);
                },
            };
            logical = ptrs[ci].blockptr;
            level = level - 1;
        }
        let node = match self.read_node(logical) {
            Ok(nd) => nd,
            Err(e) => {
                return Err(e);
            },
        };
        if node.header.level != 0 {
            return Err(BtrfsError::Corrupt("leaf expected at level zero".to_owned()));
        }
        let items = match node.items() {
            Ok(it) => it,
            Err(e) => {
                return Err(e);
            },
        };
        // The reached leaf holds the key iff `leaf_find` says so.
        match leaf_find(&items, key) {
            Some(i) => {
                let item = items[i];
                let data = match node.item_payload(&item) {
                    Ok(d) => d,
                    Err(e) => {
                        return Err(e);
                    },
                };
                Ok(Some((item, data)))
            },
            None => Ok(None),
        }
    }

    /// Range scan: returns every item whose key lies in
    /// `[min_key, max_key]`, in strictly increasing key order, each
    /// with an owned copy of its data.
    pub fn search_range(&self, min_key: &BtrfsKey, max_key: &BtrfsKey) -> (r: Result<
        Vec<(Item, Vec<u8>)>,
        BtrfsError,
    >)
        requires
            self.fs.wf(),
        ensures
            r is Ok ==> entries_sorted(r->Ok_0@) && entries_in_range(r->Ok_0@, *min_key, *max_key),
    {
        let mut results: Vec<(Item, Vec<u8>)> = Vec::new();
        match self.search_range_from(self.root_logical, self.root_level, min_key, max_key,
            &mut results) {
            Ok(()) => Ok(results),
            Err(e) => Err(e),
        }
    }

    /// Appends the in-range items of one leaf to `results`, in leaf
    /// order: on success exactly the items of the leaf whose keys lie
    /// in `[min_key, max_key]`, each paired with a copy of its data
    /// slice, with every earlier entry preserved.
    fn leaf_range_collect(
        node: &TreeNode,
        min_key: &BtrfsKey,
        max_key: &BtrfsKey,
        results: &mut Vec<(Item, Vec<u8>)>,
    ) -> (r: Result<(), BtrfsError>)
        requires
            node.wf(),
            node.header.level == 0,
            entries_sorted(old(results)@),
            entries_in_range(old(results)@, *min_key, *max_key),
        ensures
            final(results)@.len() >= old(results)@.len(),
            forall|t: int| 0 <= t < old(results)@.len() ==> final(results)@[t] == old(results)@[t],
            entries_sorted(final(results)@),
            entries_in_range(final(results)@, *min_key, *max_key),
            r is Ok ==> ({
                let kept = in_range_prefix(
                    node.spec_data(),
                    node.header.nritems as int,
                    *min_key,
                    *max_key,
                );
                &&& final(results)@.len() == old(results)@.len() + kept.len()
                &&& forall|k: int|
                    0 <= k < kept.len() ==> (#[trigger] final(results)@[old(results)@.len() + k]).0
                        == kept[k] && final(results)@[old(results)@.len() + k].1@
                        == node.spec_data().subrange(
                        NODE_HEADER_SIZE + kept[k].offset as int,
                        NODE_HEADER_SIZE + kept[k].offset as int + kept[k].size as int,
                    )
            }),
            r is Err ==> r->Err_0 is Corrupt,
    {
        let items = match node.items() {
            Ok(it) => it,
            Err(e) => {
                return Err(e);
            },
        };
        let m: usize = items.len();
        let mut i: usize = 0;
        while i < m
            invariant
                node.wf(),
                node.header.level == 0,
                m == items@.len(),
                m == node.header.nritems,
                i <= m,
                forall|k: int| 0 <= k < m ==> items@[k] == leaf_item(node.spec_data(), k),
                results@.len() >= old(results)@.len(),
                forall|t: int| 0 <= t < old(results)@.len() ==> results@[t] == old(results)@[t],
                entries_sorted(results@),
                entries_in_range(results@, *min_key, *max_key),
                ({
                    let kept = in_range_prefix(node.spec_data(), i as int, *min_key, *max_key);
                    &&& results@.len() == old(results)@.len() + kept.len()
                    &&& forall|k: int|
                        0 <= k < kept.len() ==> (#[trigger] results@[old(results)@.len() + k]).0
                            == kept[k] && results@[old(results)@.len() + k].1@
                            == node.spec_data().subrange(
                            NODE_HEADER_SIZE + kept[k].offset as int,
                            NODE_HEADER_SIZE + kept[k].offset as int + kept[k].size as int,
                        )
                }),
            decreases m - i,
        {
            let item = items[i];
            let ghost kept_i = in_range_prefix(node.spec_data(), i as int, *min_key, *max_key);
            if !key_before(&item.key, min_key) && !key_before(max_key, &item.key) {
                if results.len() > 0 {
                    let li: usize = results.len() - 1;
                    let lastk: BtrfsKey = results[li].0.key;
                    if !key_before(&lastk, &item.key) {
                        return Err(
                            BtrfsError::Corrupt("range scan results out of order".to_owned()),
                        );
                    }
                }
                let data = match node.item_payload(&item) {
                    Ok(d) => d,
                    Err(e) => {
                        return Err(e);
                    },
                };
                results.push((item, data));
                proof {
                    assert(in_range_prefix(node.spec_data(), i as int + 1, *min_key, *max_key)
                        =~= kept_i + seq![leaf_item(node.spec_data(), i as int)]);
                }
            } else {
                proof {
                    assert(in_range_prefix(node.spec_data(), i as int + 1, *min_key, *max_key)
                        =~= kept_i);
                }
            }
            i = i + 1;
        }
        Ok(())
    }

    /// Depth-first range scan from one node, appending matches in
    /// order with every earlier entry preserved; subtrees that cannot
    /// intersect the range are pruned.
    fn search_range_from(
        &self,
        logical: u64,
        level: u8,
        min_key: &BtrfsKey,
        max_key: &BtrfsKey,
        results: &mut Vec<(Item, Vec<u8>)>,
    ) -> (r: Result<(), BtrfsError>)
        requires
            self.fs.wf(),
            entries_sorted(old(results)@),
            entries_in_range(old(results)@, *min_key, *max_key),
        ensures
            final(results)@.len() >= old(results)@.len(),
            forall|t: int| 0 <= t < old(results)@.len() ==> final(results)@[t] == old(results)@[t],
            entries_sorted(final(results)@),
            entries_in_range(final(results)@, *min_key, *max_key),
        decreases level,
    {
        let node = match self.read_node(logical) {
            Ok(nd) => nd,
            Err(e) => {
                return Err(e);
            },
        };
        if node.header.level != level {
            return Err(BtrfsError::Corrupt("node level does not match descent".to_owned()));
        }
        if level == 0 {
            match Self::leaf_range_collect(&node, min_key, max_key, results) {
                Ok(()) => Ok(()),
                Err(e) => Err(e),
            }
        } else {
            let ptrs = match node.key_ptrs() {
                Ok(p) => p,
                Err(e) => {
                    return Err(e);
                },
            };
            let m: usize = ptrs.len();
            let mut i: usize = 0;
            while i < m
                invariant
                    self.fs.wf(),
                    m == ptrs@.len(),
                    i <= m,
                    level > 0,
                    results@.len() >= old(results)@.len(),
                    forall|t: int| 0 <= t < old(results)@.len() ==> results@[t] == old(results)@[t],
                    entries_sorted(results@),
                    entries_in_range(results@, *min_key, *max_key),
                decreases m - i,
            {
                let visit = !key_before(max_key, &ptrs[i].key) && (i == m - 1 || !key_before(
                    &ptrs[i + 1].key,
                    min_key,
                ));
                if visit {
                    match self.search_range_from(ptrs[i].blockptr, level - 1, min_key, max_key,
                        results) {
                        Ok(()) => (),
                        Err(e) => {
                            return Err(e);
                        },
                    }
                }
                i = i + 1;
            }
            Ok(())
        }
    }

    /// In-order iteration over every item of the tree. A read failure
    /// becomes an element of kind `Err` after the items scanned before
    /// it, and the iterator is exhausted after yielding it.
    pub fn iter(&self) -> (r: TreeIterator)
        requires
            self.fs.wf(),
        ensures
            entries_sorted_rev(r.entries_rev@),
    {
        let min = BtrfsKey::min();
        let max = BtrfsKey::max();
        let mut entries: Vec<(Item, Vec<u8>)> = Vec::new();
        let err = match self.search_range_from(self.root_logical, self.root_level, &min, &max,
            &mut entries) {
            Ok(()) => None,
            Err(e) => Some(e),
        };
        let ghost orig = entries@;
        let mut entries_rev: Vec<(Item, Vec<u8>)> = Vec::new();
        while entries.len() > 0
            invariant
                entries@ == orig.take(entries@.len() as int),
                entries_rev@.len() + entries@.len() == orig.len(),
                forall|k: int|
                    0 <= k < entries_rev@.len() ==> #[trigger] entries_rev@[k] == orig[orig.len()
                        - 1 - k],
            decreases entries.len(),
        {
            match entries.pop() {
                Some(x) => {
                    entries_rev.push(x);
                },
                None => {
                    break;
                },
            }
        }
        proof {
            assert(entries_sorted(orig));
            assert forall|i: int|
                0 <= i < entries_rev@.len() - 1 implies key_lt(
                entries_rev@[i + 1].0.key,
                (#[trigger] entries_rev@[i]).0.key,
            ) by {
                assert(entries_rev@[i] == orig[orig.len() - 1 - i]);
                assert(entries_rev@[i + 1] == orig[orig.len() - 1 - (i + 1)]);
                assert(key_lt(
                    orig[orig.len() - 2 - i].0.key,
                    orig[orig.len() - 2 - i + 1].0.key,
                ));
            }
        }
        TreeIterator { entries_rev, err }
    }
}

/// An in-order iterator over a tree's items: the entries, held in
/// reverse so the next one is the last, or the error that ended the
/// walk.
pub struct TreeIterator {
    /// The remaining entries, last first.
    pub entries_rev: Vec<(Item, Vec<u8>)>,
    /// A read failure, yielded once as an `Err` element.
    pub err: Option<BtrfsError>,
}

impl TreeIterator {
    /// The next element in key order: the scanned items first, then
    /// the walk's failure once as an `Err` element, then `None`.
    pub fn next(&mut self) -> (r: Option<Result<(Item, Vec<u8>), BtrfsError>>)
        ensures
            old(self).entries_rev@.len() > 0 ==> r is Some && r->0 is Ok && r->0->Ok_0 == old(
                self,
            ).entries_rev@.last() && final(self).entries_rev@ == old(self).entries_rev@.drop_last()
                && final(self).err == old(self).err,
            old(self).entries_rev@.len() == 0 && old(self).err is Some ==> r is Some
                && r->0 is Err && final(self).err is None && final(self).entries_rev@ == old(
                self,
            ).entries_rev@,
            old(self).entries_rev@.len() == 0 && old(self).err is None ==> r is None
                && final(self).entries_rev@ == old(self).entries_rev@ && final(self).err is None,
    {
        match self.entries_rev.pop() {
            Some(x) => Some(Ok(x)),
            None => match self.err.take() {
                Some(err) => Some(Err(err)),
                None => None,
            },
        }
    }

    /// The number of entries left.
    pub fn remaining(&self) -> (r: usize)
        ensures
            r == self.entries_rev@.len(),
    {
        self.entries_rev.len()
    }
}

} // verus!
