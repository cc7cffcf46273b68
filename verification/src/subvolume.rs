//! Subvolumes and snapshots: root items of the root tree and the
//! descriptors built from them.

use vstd::prelude::*;

use crate::bytes::{copy_bytes, le_i64, le_u32, le_u64};
use crate::bytes::{spec_le_i64, spec_le_u32, spec_le_u64};
use crate::device::BlockDevice;
use crate::error::BtrfsError;
use crate::fs::BtrfsFilesystem;
use crate::item_type;
use crate::objectid;
use crate::subvol_flags;
use crate::tree::{spec_key_at, BtrfsKey, BtrfsTree, Item, key_at};

verus! {

/// A timestamp: seconds since the epoch and nanoseconds.
#[derive(Debug, Clone, Copy, PartialEq, Eq, Structural)]
pub struct TimeSpec {
    /// Seconds since the epoch.
    pub sec: i64,
    /// Nanoseconds.
    pub nsec: u32,
}

impl Default for TimeSpec {
    /// The zero timestamp.
    fn default() -> (r: Self)
        ensures
            r.sec == 0 && r.nsec == 0,
    {
        TimeSpec { sec: 0, nsec: 0 }
    }
}

/// The timestamp serialized at byte offset `off`.
pub open spec fn spec_rtimespec_at(data: Seq<u8>, off: int) -> TimeSpec {
    TimeSpec { sec: spec_le_i64(data, off), nsec: spec_le_u32(data, off + 8) }
}

fn rtimespec_at(data: &[u8], off: usize) -> (r: TimeSpec)
    requires
        off + 12 <= data@.len(),
    ensures
        r == spec_rtimespec_at(data@, off as int),
{
    let _n: usize = data.len();
    TimeSpec { sec: le_i64(data, off), nsec: le_u32(data, off + 8) }
}

/// A subvolume descriptor.
#[derive(Debug, Clone)]
pub struct Subvolume {
    /// Subvolume id (root tree object id).
    pub id: u64,
    /// Parent subvolume id; 0 for the top level.
    pub parent_id: u64,
    /// Generation when created.
    pub generation: u64,
    /// Generation of the parent, for snapshots.
    pub parent_generation: u64,
    /// Flags.
    pub flags: u64,
    /// UUID (16 bytes).
    pub uuid: Vec<u8>,
    /// Parent UUID, for snapshots (16 bytes).
    pub parent_uuid: Vec<u8>,
    /// Received UUID (16 bytes).
    pub received_uuid: Vec<u8>,
    /// Creation time.
    pub otime: TimeSpec,
    /// Send time.
    pub stime: TimeSpec,
    /// Receive time.
    pub rtime: TimeSpec,
    /// Name.
    pub name: String,
    /// Path relative to the top level.
    pub path: String,
    /// Logical address of the subvolume's tree root.
    pub root_bytenr: u64,
    /// Level of the tree root.
    pub root_level: u8,
}

/// The mini-inode embedded at the start of a root item.
#[derive(Debug, Clone, PartialEq, Eq, Structural)]
pub struct RootInode {
    pub generation: u64,
    pub transid: u64,
    pub size: u64,
    pub nbytes: u64,
    pub block_group: u64,
    pub nlink: u32,
    pub uid: u32,
    pub gid: u32,
    pub mode: u32,
    pub rdev: u64,
    pub flags: u64,
    pub sequence: u64,
}

impl Default for RootInode {
    /// The all-zero mini-inode.
    fn default() -> (r: Self)
        ensures
            r == (RootInode {
                generation: 0,
                transid: 0,
                size: 0,
                nbytes: 0,
                block_group: 0,
                nlink: 0,
                uid: 0,
                gid: 0,
                mode: 0,
                rdev: 0,
                flags: 0,
                sequence: 0,
            }),
    {
        RootInode {
            generation: 0,
            transid: 0,
            size: 0,
            nbytes: 0,
            block_group: 0,
            nlink: 0,
            uid: 0,
            gid: 0,
            mode: 0,
            rdev: 0,
            flags: 0,
            sequence: 0,
        }
    }
}

/// The mini-inode serialized at the start of a root item.
pub open spec fn root_inode_parsed(data: Seq<u8>, r: RootInode) -> bool {
    &&& r.generation == spec_le_u64(data, 0)
    &&& r.transid == spec_le_u64(data, 8)
    &&& r.size == spec_le_u64(data, 16)
    &&& r.nbytes == spec_le_u64(data, 24)
    &&& r.block_group == spec_le_u64(data, 32)
    &&& r.nlink == spec_le_u32(data, 40)
    &&& r.uid == spec_le_u32(data, 44)
    &&& r.gid == spec_le_u32(data, 48)
    &&& r.mode == spec_le_u32(data, 52)
    &&& r.rdev == spec_le_u64(data, 56)
    &&& r.flags == spec_le_u64(data, 64)
    &&& r.sequence == spec_le_u64(data, 72)
}

/// A root item: the 439-byte record describing one tree of the
/// forest, a subvolume or snapshot among them.
#[derive(Debug, Clone)]
pub struct RootItem {
    /// The embedded mini-inode.
    pub inode: RootInode,
    /// Generation.
    pub generation: u64,
    /// Object id of the root directory inside the subvolume.
    pub root_dirid: u64,
    /// Logical address of the tree root.
    pub bytenr: u64,
    /// Byte limit.
    pub byte_limit: u64,
    /// Bytes used.
    pub bytes_used: u64,
    /// Generation of the last snapshot.
    pub last_snapshot: u64,
    /// Flags; bit 0 is read-only.
    pub flags: u64,
    /// Reference count.
    pub refs: u32,
    /// Progress key of an interrupted deletion.
    pub drop_progress: BtrfsKey,
    /// Level of an interrupted deletion.
    pub drop_level: u8,
    /// Level of the tree root.
    pub level: u8,
    /// Second-format generation.
    pub generation_v2: u64,
    /// UUID (16 bytes).
    pub uuid: Vec<u8>,
    /// Parent UUID (16 bytes).
    pub parent_uuid: Vec<u8>,
    /// Received UUID (16 bytes).
    pub received_uuid: Vec<u8>,
    /// Transaction id of creation.
    pub ctransid: u64,
    /// Transaction id of last modification.
    pub otransid: u64,
    /// Transaction id of send.
    pub stransid: u64,
    /// Transaction id of receive.
    pub rtransid: u64,
    /// Creation time.
    pub ctime: TimeSpec,
    /// Last modification time.
    pub otime: TimeSpec,
    /// Send time.
    pub stime: TimeSpec,
    /// Receive time.
    pub rtime: TimeSpec,
}

/// Holds iff `r` carries the root item serialized at the start of
/// `data`, field by field at the on-disk offsets.
pub open spec fn root_item_parsed(data: Seq<u8>, r: RootItem) -> bool {
    &&& root_inode_parsed(data, r.inode)
    &&& r.generation == spec_le_u64(data, 160)
    &&& r.root_dirid == spec_le_u64(data, 168)
    &&& r.bytenr == spec_le_u64(data, 176)
    &&& r.byte_limit == spec_le_u64(data, 184)
    &&& r.bytes_used == spec_le_u64(data, 192)
    &&& r.last_snapshot == spec_le_u64(data, 200)
    &&& r.flags == spec_le_u64(data, 208)
    &&& r.refs == spec_le_u32(data, 216)
    &&& r.drop_progress == spec_key_at(data, 220)
    &&& r.drop_level == data[237]
    &&& r.level == data[238]
    &&& r.generation_v2 == spec_le_u64(data, 239)
    &&& r.uuid@ == data.subrange(247, 263)
    &&& r.parent_uuid@ == data.subrange(263, 279)
    &&& r.received_uuid@ == data.subrange(279, 295)
    &&& r.ctransid == spec_le_u64(data, 295)
    &&& r.otransid == spec_le_u64(data, 303)
    &&& r.stransid == spec_le_u64(data, 311)
    &&& r.rtransid == spec_le_u64(data, 319)
    &&& r.ctime == spec_rtimespec_at(data, 327)
    &&& r.otime == spec_rtimespec_at(data, 339)
    &&& r.stime == spec_rtimespec_at(data, 351)
    &&& r.rtime == spec_rtimespec_at(data, 363)
}

impl RootItem {
    /// Parses a root item from at least 439 bytes.
    pub fn from_bytes(data: &[u8]) -> (r: Result<Self, BtrfsError>)
        ensures
            r is Ok <==> data@.len() >= 439,
            r is Ok ==> root_item_parsed(data@, r->Ok_0),
            r is Err ==> r->Err_0 is Corrupt,
    {
        let n: usize = data.len();
        if n < 439 {
            return Err(BtrfsError::Corrupt("root item too small".to_owned()));
        }
        let inode = RootInode {
            generation: le_u64(data, 0),
            transid: le_u64(data, 8),
            size: le_u64(data, 16),
            nbytes: le_u64(data, 24),
            block_group: le_u64(data, 32),
            nlink: le_u32(data, 40),
            uid: le_u32(data, 44),
            gid: le_u32(data, 48),
            mode: le_u32(data, 52),
            rdev: le_u64(data, 56),
            flags: le_u64(data, 64),
            sequence: le_u64(data, 72),
        };
        Ok(RootItem {
            inode,
            generation: le_u64(data, 160),
            root_dirid: le_u64(data, 168),
            bytenr: le_u64(data, 176),
            byte_limit: le_u64(data, 184),
            bytes_used: le_u64(data, 192),
            last_snapshot: le_u64(data, 200),
            flags: le_u64(data, 208),
            refs: le_u32(data, 216),
            drop_progress: key_at(data, 220),
            drop_level: data[237],
            level: data[238],
            generation_v2: le_u64(data, 239),
            uuid: copy_bytes(data, 247, 16),
            parent_uuid: copy_bytes(data, 263, 16),
            received_uuid: copy_bytes(data, 279, 16),
            ctransid: le_u64(data, 295),
            otransid: le_u64(data, 303),
            stransid: le_u64(data, 311),
            rtransid: le_u64(data, 319),
            ctime: rtimespec_at(data, 327),
            otime: rtimespec_at(data, 339),
            stime: rtimespec_at(data, 351),
            rtime: rtimespec_at(data, 363),
        })
    }

    /// True iff the subvolume is read-only.
    pub fn is_readonly(&self) -> (r: bool)
        ensures
            r == (self.flags & subvol_flags::RDONLY != 0),
    {
        self.flags & subvol_flags::RDONLY != 0
    }
}

/// Builds the descriptor of the default filesystem tree from the
/// superblock alone.
fn default_fs_subvolume<D: BlockDevice>(fs: &BtrfsFilesystem<D>) -> (r: Subvolume)
    ensures
        r.id == objectid::FS_TREE,
        r.parent_id == 0,
        r.generation == fs.superblock.raw.generation,
        r.parent_generation == 0,
        r.flags == 0,
        r.uuid@ == Seq::new(16, |i: int| 0u8),
        r.parent_uuid@ == Seq::new(16, |i: int| 0u8),
        r.received_uuid@ == Seq::new(16, |i: int| 0u8),
        r.otime == (TimeSpec { sec: 0, nsec: 0 }),
        r.stime == (TimeSpec { sec: 0, nsec: 0 }),
        r.rtime == (TimeSpec { sec: 0, nsec: 0 }),
        r.name@ == "(FS_TREE)"@,
        r.path@ == "/"@,
        r.root_bytenr == fs.superblock.raw.root,
        r.root_level == fs.superblock.raw.root_level,
{
    Subvolume {
        id: objectid::FS_TREE,
        parent_id: 0,
        generation: fs.superblock().generation(),
        parent_generation: 0,
        flags: 0,
        uuid: vec![0u8;16],
        parent_uuid: vec![0u8;16],
        received_uuid: vec![0u8;16],
        otime: TimeSpec { sec: 0, nsec: 0 },
        stime: TimeSpec { sec: 0, nsec: 0 },
        rtime: TimeSpec { sec: 0, nsec: 0 },
        name: "(FS_TREE)".to_owned(),
        path: "/".to_owned(),
        root_bytenr: fs.superblock().root(),
        root_level: fs.superblock().root_level(),
    }
}

/// Builds a subvolume descriptor from a parsed root item.
fn subvolume_from_root_item(id: u64, ri: &RootItem) -> (r: Subvolume)
    ensures
        r.id == id,
        r.parent_id == 0,
        r.generation == ri.generation,
        r.parent_generation == ri.last_snapshot,
        r.flags == ri.flags,
        r.uuid@ == ri.uuid@,
        r.parent_uuid@ == ri.parent_uuid@,
        r.received_uuid@ == ri.received_uuid@,
        r.otime == ri.otime,
        r.stime == ri.stime,
        r.rtime == ri.rtime,
        r.name@.len() == 0,
        r.path@.len() == 0,
        r.root_bytenr == ri.bytenr,
        r.root_level == ri.level,
{
    Subvolume {
        id,
        parent_id: 0,
        generation: ri.generation,
        parent_generation: ri.last_snapshot,
        flags: ri.flags,
        uuid: copy_bytes(ri.uuid.as_slice(), 0, ri.uuid.len()),
        parent_uuid: copy_bytes(ri.parent_uuid.as_slice(), 0, ri.parent_uuid.len()),
        received_uuid: copy_bytes(ri.received_uuid.as_slice(), 0, ri.received_uuid.len()),
        otime: ri.otime,
        stime: ri.stime,
        rtime: ri.rtime,
        name: String::new(),
        path: String::new(),
        root_bytenr: ri.bytenr,
        root_level: ri.level,
    }
}


/// Holds iff `sv` is the descriptor built from the root item
/// serialized in `body`, for subvolume `id`: the copied fields of the
/// record, an empty name and path, and no parent.
pub open spec fn subvol_matches(id: u64, body: Seq<u8>, sv: Subvolume) -> bool {
    &&& sv.id == id
    &&& sv.parent_id == 0
    &&& sv.generation == spec_le_u64(body, 160)
    &&& sv.parent_generation == spec_le_u64(body, 200)
    &&& sv.flags == spec_le_u64(body, 208)
    &&& sv.uuid@ == body.subrange(247, 263)
    &&& sv.parent_uuid@ == body.subrange(263, 279)
    &&& sv.received_uuid@ == body.subrange(279, 295)
    &&& sv.otime == spec_rtimespec_at(body, 339)
    &&& sv.stime == spec_rtimespec_at(body, 351)
    &&& sv.rtime == spec_rtimespec_at(body, 363)
    &&& sv.name@.len() == 0
    &&& sv.path@.len() == 0
    &&& sv.root_bytenr == spec_le_u64(body, 176)
    &&& sv.root_level == body[238]
}

/// The index of the first scan entry keyed as a root item, if any.
pub open spec fn first_root_entry(s: Seq<(Item, Vec<u8>)>, i: int) -> Option<int>
    decreases s.len() - i,
{
    if i >= s.len() {
        Option::<int>::None
    } else if s[i].0.key.item_type == 0x84 {
        Some(i)
    } else {
        first_root_entry(s, i + 1)
    }
}

/// Builds the descriptor of subvolume `id` from the first root-item
/// entry of its scan: no such entry is `SubvolumeNotFound`, a short
/// body corrupt, and otherwise the descriptor is built from the
/// parsed record.
pub fn subvolume_from_entries(id: u64, entries: &Vec<(Item, Vec<u8>)>) -> (r: Result<
    Subvolume,
    BtrfsError,
>)
    ensures
        ({
            let f = first_root_entry(entries@, 0);
            &&& (f is None ==> r == Err::<Subvolume, BtrfsError>(BtrfsError::SubvolumeNotFound(
                id,
            )))
            &&& (f is Some ==> ({
                let body = entries@[f->0].1@;
                &&& (r is Ok <==> body.len() >= 439)
                &&& (r is Ok ==> subvol_matches(id, body, r->Ok_0))
                &&& (r is Err ==> r->Err_0 is Corrupt)
            }))
        }),
{
    let n: usize = entries.len();
    let mut i: usize = 0;
    while i < n
        invariant
            n == entries@.len(),
            i <= n,
            first_root_entry(entries@, 0) == first_root_entry(entries@, i as int),
        decreases n - i,
    {
        let item = entries[i].0;
        if item.key.item_type == item_type::ROOT_ITEM {
            let ri = match RootItem::from_bytes(entries[i].1.as_slice()) {
                Ok(ri) => ri,
                Err(e) => {
                    return Err(e);
                },
            };
            return Ok(subvolume_from_root_item(id, &ri));
        }
        i = i + 1;
    }
    Err(BtrfsError::SubvolumeNotFound(id))
}

/// How many of the first `n` scan entries are keyed as root items.
pub open spec fn root_ok_count(s: Seq<(Item, Vec<u8>)>, n: int) -> int
    decreases n,
{
    if n <= 0 {
        0
    } else {
        root_ok_count(s, n - 1) + if s[n - 1].0.key.item_type == 0x84 {
            1int
        } else {
            0int
        }
    }
}

proof fn lemma_root_ok_count_mono(s: Seq<(Item, Vec<u8>)>, a: int, b: int)
    requires
        a <= b,
    ensures
        root_ok_count(s, a) <= root_ok_count(s, b),
    decreases b - a,
{
    if a < b {
        lemma_root_ok_count_mono(s, a, b - 1);
    }
}

/// Decodes every root-item entry of a scan into a descriptor, in
/// order: succeeds exactly when every root-item body holds its 439
/// bytes; entry `i`'s descriptor then stands at position
/// `root_ok_count(entries, i)`, built for the key's object id.
pub fn decode_subvolumes(entries: &Vec<(Item, Vec<u8>)>) -> (r: Result<Vec<Subvolume>, BtrfsError>)
    ensures
        r is Ok <==> (forall|i: int|
            0 <= i < entries@.len() && (#[trigger] entries@[i]).0.key.item_type == 0x84
                ==> entries@[i].1@.len() >= 439),
        r is Ok ==> ({
            &&& r->Ok_0@.len() == root_ok_count(entries@, entries@.len() as int)
            &&& forall|i: int|
                0 <= i < entries@.len() && (#[trigger] entries@[i]).0.key.item_type == 0x84
                    ==> subvol_matches(
                    entries@[i].0.key.objectid,
                    entries@[i].1@,
                    r->Ok_0@[root_ok_count(entries@, i)],
                )
        }),
        r is Err ==> r->Err_0 is Corrupt,
{
    let n: usize = entries.len();
    let mut out: Vec<Subvolume> = Vec::new();
    let mut i: usize = 0;
    while i < n
        invariant
            n == entries@.len(),
            i <= n,
            out@.len() == root_ok_count(entries@, i as int),
            forall|j: int|
                0 <= j < i && (#[trigger] entries@[j]).0.key.item_type == 0x84
                    ==> entries@[j].1@.len() >= 439 && subvol_matches(
                    entries@[j].0.key.objectid,
                    entries@[j].1@,
                    out@[root_ok_count(entries@, j)],
                ),
        decreases n - i,
    {
        let item = entries[i].0;
        if item.key.item_type == item_type::ROOT_ITEM {
            let ri = match RootItem::from_bytes(entries[i].1.as_slice()) {
                Ok(ri) => ri,
                Err(e) => {
                    return Err(e);
                },
            };
            let sv = subvolume_from_root_item(item.key.objectid, &ri);
            let ghost old_out = out@;
            let ghost gsv = sv;
            out.push(sv);
            proof {
                assert forall|j: int|
                    0 <= j < i + 1 && (#[trigger] entries@[j]).0.key.item_type == 0x84
                    implies entries@[j].1@.len() >= 439 && subvol_matches(
                    entries@[j].0.key.objectid,
                    entries@[j].1@,
                    out@[root_ok_count(entries@, j)],
                ) by {
                    if j < i {
                        assert(root_ok_count(entries@, j + 1) == root_ok_count(entries@, j) + 1);
                        lemma_root_ok_count_mono(entries@, 0, j);
                        lemma_root_ok_count_mono(entries@, j + 1, i as int);
                        assert(root_ok_count(entries@, j) < old_out.len());
                        assert(out@ == old_out.push(gsv));
                        assert(old_out.push(gsv)[root_ok_count(entries@, j)]
                            == old_out[root_ok_count(entries@, j)]);
                    } else {
                        assert(j == i);
                        assert(root_ok_count(entries@, i as int) == old_out.len());
                        assert(out@[old_out.len() as int] == gsv);
                        assert(subvol_matches(
                            entries@[i as int].0.key.objectid,
                            entries@[i as int].1@,
                            gsv,
                        ));
                    }
                }
            }
        }
        i = i + 1;
    }
    Ok(out)
}

/// Lists the subvolumes: the default filesystem tree, then one
/// descriptor per root item of the root tree in the subvolume id
/// range, decoded per `decode_subvolumes`.
pub fn list_subvolumes<D: BlockDevice>(fs: &BtrfsFilesystem<D>) -> (r: Result<
    Vec<Subvolume>,
    BtrfsError,
>)
    requires
        fs.wf(),
    ensures
        r is Ok ==> r->Ok_0@.len() >= 1 && r->Ok_0@[0].id == objectid::FS_TREE,
{
    let mut subvolumes: Vec<Subvolume> = Vec::new();
    subvolumes.push(default_fs_subvolume(fs));

    let tree = BtrfsTree::new(fs, fs.superblock().root(), fs.superblock().root_level());
    let min = BtrfsKey::new(objectid::FIRST_FREE, item_type::ROOT_ITEM, 0);
    let max = BtrfsKey::new(objectid::LAST_FREE, item_type::ROOT_ITEM, 0xffff_ffff_ffff_ffffu64);
    let entries = match tree.search_range(&min, &max) {
        Ok(v) => v,
        Err(e) => {
            return Err(e);
        },
    };
    let mut decoded = match decode_subvolumes(&entries) {
        Ok(v) => v,
        Err(e) => {
            return Err(e);
        },
    };
    subvolumes.append(&mut decoded);
    Ok(subvolumes)
}

/// Fetches the subvolume with the given id: the default filesystem
/// tree from the superblock, any other from the first root item of
/// its root-tree scan per `subvolume_from_entries`; an id without a
/// root item is `SubvolumeNotFound`.
pub fn get_subvolume<D: BlockDevice>(fs: &BtrfsFilesystem<D>, id: u64) -> (r: Result<
    Subvolume,
    BtrfsError,
>)
    requires
        fs.wf(),
    ensures
        id == objectid::FS_TREE ==> r is Ok && r->Ok_0.id == objectid::FS_TREE && r->Ok_0.parent_id
            == 0 && r->Ok_0.generation == fs.superblock.raw.generation && r->Ok_0.name@
            == "(FS_TREE)"@ && r->Ok_0.path@ == "/"@ && r->Ok_0.root_bytenr
            == fs.superblock.raw.root && r->Ok_0.root_level == fs.superblock.raw.root_level,
        r is Ok ==> r->Ok_0.id == id,
{
    if id == objectid::FS_TREE {
        return Ok(default_fs_subvolume(fs));
    }
    let tree = BtrfsTree::new(fs, fs.superblock().root(), fs.superblock().root_level());
    let min = BtrfsKey::new(id, item_type::ROOT_ITEM, 0);
    let max = BtrfsKey::new(id, item_type::ROOT_ITEM, 0xffff_ffff_ffff_ffffu64);
    let entries = match tree.search_range(&min, &max) {
        Ok(v) => v,
        Err(e) => {
            return Err(e);
        },
    };
    subvolume_from_entries(id, &entries)
}

/// Whether every entry of a root-item scan carries the queried id.
/// Snapshot creation is not part of the read path.
pub fn create_snapshot<D: BlockDevice>(
    _fs: &BtrfsFilesystem<D>,
    _source_id: u64,
    _name: &str,
    _readonly: bool,
) -> (r: Result<Subvolume, BtrfsError>)
    ensures
        r is Err && r->Err_0 is ReadOnly,
{
    Err(BtrfsError::ReadOnly)
}

/// Subvolume deletion is not part of the read path.
pub fn delete_subvolume<D: BlockDevice>(_fs: &BtrfsFilesystem<D>, _id: u64) -> (r: Result<
    (),
    BtrfsError,
>)
    ensures
        r is Err && r->Err_0 is ReadOnly,
{
    Err(BtrfsError::ReadOnly)
}

} // verus!
