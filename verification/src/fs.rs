//! The filesystem handle: a validated superblock, the chunk manager,
//! and the block device behind them.

use vstd::prelude::*;

use crate::chunk::{ChunkTree, chunk_contains, floor_idx, is_mirrored, is_raid0, is_raid10,
    is_raid56, is_single, mirror_translation, raid0_translation, raid10_translation,
    single_translation};
use crate::chunk::{ChunkMapping, mapping_wf};
use crate::device::BlockDevice;
use crate::error::BtrfsError;
use crate::item_type;
use crate::superblock::Superblock;
use crate::tree::{BtrfsKey, BtrfsTree};

verus! {

/// An opened filesystem.
pub struct BtrfsFilesystem<D: BlockDevice> {
    /// The underlying block device.
    pub device: D,
    /// The validated superblock.
    pub superblock: Superblock,
    /// The chunk manager for address translation.
    pub chunk_tree: ChunkTree,
    /// Whether the filesystem was opened read-only.
    pub read_only: bool,
}

impl<D: BlockDevice> BtrfsFilesystem<D> {
    /// An open handle is well-formed: its superblock and chunk
    /// manager are.
    pub open spec fn wf(&self) -> bool {
        &&& self.superblock.wf()
        &&& self.chunk_tree.wf()
    }

    /// Opens a filesystem: reads and validates the superblock, seeds
    /// the chunk manager from the bootstrap sys-chunk-array, then
    /// extends it by walking the chunk tree, whose root the bootstrap
    /// chunks make reachable.
    pub fn open(device: D, read_only: bool) -> (r: Result<Self, BtrfsError>)
        ensures
            r is Ok ==> r->Ok_0.wf() && r->Ok_0.read_only == read_only,
    {
        let superblock = match Superblock::read(&device) {
            Ok(sb) => sb,
            Err(e) => {
                return Err(e);
            },
        };
        let chunk_tree = match ChunkTree::from_superblock(&superblock) {
            Ok(t) => t,
            Err(e) => {
                return Err(e);
            },
        };
        let fs = BtrfsFilesystem { device, superblock, chunk_tree, read_only };

        let chunk_root = fs.superblock.chunk_root();
        let chunk_root_level = fs.superblock.chunk_root_level();
        let mut extra: Vec<ChunkMapping> = Vec::new();
        let tree = BtrfsTree::new(&fs, chunk_root, chunk_root_level);
        let min = BtrfsKey::min();
        let max = BtrfsKey::max();
        let entries = match tree.search_range(&min, &max) {
            Ok(v) => v,
            Err(e) => {
                return Err(e);
            },
        };
        let n: usize = entries.len();
        let mut i: usize = 0;
        while i < n
            invariant
                n == entries@.len(),
                i <= n,
                forall|k: int| 0 <= k < extra@.len() ==> mapping_wf(#[trigger] extra@[k]),
            decreases n - i,
        {
            let item = entries[i].0;
            if item.key.item_type == item_type::CHUNK_ITEM {
                let c = match ChunkTree::parse_chunk_item(entries[i].1.as_slice(), item.key.offset)
                {
                    Ok(c) => c,
                    Err(e) => {
                        return Err(e);
                    },
                };
                extra.push(c);
            }
            i = i + 1;
        }
        let mut fs = fs;
        let mut extra = extra;
        while extra.len() > 0
            invariant
                fs.wf(),
                fs.read_only == read_only,
                forall|k: int| 0 <= k < extra@.len() ==> mapping_wf(#[trigger] extra@[k]),
            decreases extra.len(),
        {
            match extra.pop() {
                Some(c) => {
                    fs.chunk_tree.add_chunk(c);
                },
                None => {
                    break;
                },
            }
        }
        Ok(fs)
    }

    /// The validated superblock.
    pub fn superblock(&self) -> (r: &Superblock)
        ensures
            r == &self.superblock,
    {
        &self.superblock
    }

    /// The chunk manager.
    pub fn chunk_tree(&self) -> (r: &ChunkTree)
        ensures
            r == &self.chunk_tree,
    {
        &self.chunk_tree
    }

    /// The underlying block device.
    pub fn device(&self) -> (r: &D)
        ensures
            r == &self.device,
    {
        &self.device
    }

    /// The filesystem UUID (16 bytes).
    pub fn uuid(&self) -> (r: &Vec<u8>)
        ensures
            r@ == self.superblock.raw.fsid@,
    {
        self.superblock.fsid()
    }

    /// The filesystem label.
    pub fn label(&self) -> (r: String)
        requires
            self.wf(),
    {
        self.superblock.label()
    }

    /// The total size of the filesystem in bytes.
    pub fn total_bytes(&self) -> (r: u64)
        ensures
            r == self.superblock.raw.total_bytes,
    {
        self.superblock.total_bytes()
    }

    /// The used bytes of the filesystem.
    pub fn bytes_used(&self) -> (r: u64)
        ensures
            r == self.superblock.raw.bytes_used,
    {
        self.superblock.bytes_used()
    }

    /// Whether the filesystem was opened read-only.
    pub fn is_read_only(&self) -> (r: bool)
        ensures
            r == self.read_only,
    {
        self.read_only
    }

    /// The node size in bytes.
    pub fn node_size(&self) -> (r: u32)
        ensures
            r == self.superblock.raw.node_size,
    {
        self.superblock.node_size()
    }

    /// The filesystem generation.
    pub fn generation(&self) -> (r: u64)
        ensures
            r == self.superblock.raw.generation,
    {
        self.superblock.generation()
    }

    /// The default subvolume: the one the superblock's root directory
    /// object id names.
    pub fn default_subvolume(&self) -> (r: Result<crate::subvolume::Subvolume, BtrfsError>)
        requires
            self.wf(),
        ensures
            r is Ok ==> r->Ok_0.id == self.superblock.raw.root_dir_objectid,
    {
        crate::subvolume::get_subvolume(self, self.superblock().root_dir_objectid())
    }

    /// Translates a logical address to its physical copies, as
    /// `(devid, physical)` pairs.
    pub fn logical_to_physical(&self, logical: u64) -> (r: Result<Vec<(u64, u64)>, BtrfsError>)
        requires
            self.wf(),
        ensures
            ({
                let fi = floor_idx(self.chunk_tree.chunks@, logical);
                let no_chunk = fi < 0 || !chunk_contains(self.chunk_tree.chunks@[fi], logical);
                &&& (no_chunk <==> (r is Err && r->Err_0 is NotFound))
                &&& (!no_chunk ==> ({
                    let c = self.chunk_tree.chunks@[fi];
                    &&& (is_raid56(c) <==> r is Err && r->Err_0 is UnsupportedFeature)
                    &&& (is_single(c) ==> single_translation(c, logical, r))
                    &&& (is_mirrored(c) ==> mirror_translation(c, logical, r))
                    &&& (is_raid0(c) ==> raid0_translation(c, logical, r))
                    &&& (is_raid10(c) ==> raid10_translation(c, logical, r))
                }))
            }),
    {
        self.chunk_tree.logical_to_physical(logical)
    }

    /// Reads `len` bytes at a logical address, from the first valid
    /// copy whose device read succeeds.
    pub fn read_logical(&self, logical: u64, len: usize) -> (r: Result<Vec<u8>, BtrfsError>)
        requires
            self.wf(),
        ensures
            r is Ok ==> r->Ok_0@.len() == len,
    {
        let copies = match self.logical_to_physical(logical) {
            Ok(c) => c,
            Err(e) => {
                return Err(e);
            },
        };
        let n: usize = copies.len();
        let mut i: usize = 0;
        let mut last: BtrfsError = BtrfsError::NotFound(
            "no physical mapping for logical address".to_owned(),
        );
        while i < n
            invariant
                n == copies@.len(),
                i <= n,
            decreases n - i,
        {
            let (_devid, phys) = copies[i];
            match self.device.read_at(phys, len) {
                Ok(buf) => {
                    return Ok(buf);
                },
                Err(e) => {
                    last = BtrfsError::BlockDevice(e);
                },
            }
            i = i + 1;
        }
        Err(last)
    }

    /// Reads the raw bytes of the tree node at a logical address:
    /// node-size bytes from the first readable copy. The bytes are
    /// not yet verified; parsing a `TreeNode` checks the checksum.
    pub fn read_node(&self, logical: u64) -> (r: Result<Vec<u8>, BtrfsError>)
        requires
            self.wf(),
        ensures
            r is Ok ==> r->Ok_0@.len() == self.superblock.raw.node_size,
    {
        self.read_logical(logical, self.node_size() as usize)
    }
}

} // verus!
