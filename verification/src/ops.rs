//! The namespace resolver and the file reader: directory lookup by
//! name hash, path walking, and assembly of file bytes from inline,
//! regular, preallocated, and sparse extents, decompressing where the
//! extent asks for it.

use vstd::prelude::*;
use vstd::string::StrSliceExecFns;
use vstd::string::StringSliceAdditionalSpecFns;

use crate::bytes::copy_bytes;
use crate::checksum::{crc32c, crc32c_of};
use crate::compress::{decode_bytes, spec_decode};
use crate::device::BlockDevice;
use crate::error::BtrfsError;
use crate::fs::BtrfsFilesystem;
use crate::bytes::spec_le_u16;
use crate::inode::{dir_entry_parsed, dir_item_find, extent_data_parsed, inode_parsed,
    inode_ref_parsed, DirEntry, ExtentData, Inode, InodeRef};
use crate::tree::Item;
use crate::item_type;
use crate::objectid;
use crate::subvolume::RootItem;
use crate::tree::{BtrfsKey, BtrfsTree};

verus! {

/// The directory-entry name hash: the CRC32c of the name bytes,
/// zero-extended to 64 bits.
pub open spec fn spec_name_hash(name: Seq<u8>) -> u64 {
    crc32c_of(name) as u64
}

/// Hashes a name for `DIR_ITEM` lookup: the lower 32 bits are the
/// CRC32c of the name bytes, the upper 32 bits zero. The hash is a
/// function of the name alone.
pub fn btrfs_name_hash(name: &str) -> (r: u64)
    ensures
        r == spec_name_hash(name.spec_bytes()),
        r <= u32::MAX,
{
    crc32c(name.as_bytes()) as u64
}

/// Builds the search handle for a tree of the forest: the root tree
/// and chunk tree come from the superblock, any other tree from its
/// root item in the root tree.
fn tree_for<'a, D: BlockDevice>(fs: &'a BtrfsFilesystem<D>, tree_id: u64) -> (r: Result<
    BtrfsTree<'a, D>,
    BtrfsError,
>)
    requires
        fs.wf(),
    ensures
        r is Ok ==> r->Ok_0.fs == fs,
{
    if tree_id == objectid::ROOT_TREE {
        return Ok(BtrfsTree::new(fs, fs.superblock().root(), fs.superblock().root_level()));
    }
    if tree_id == objectid::CHUNK_TREE {
        return Ok(
            BtrfsTree::new(fs, fs.superblock().chunk_root(), fs.superblock().chunk_root_level()),
        );
    }
    let root_tree = BtrfsTree::new(fs, fs.superblock().root(), fs.superblock().root_level());
    let min = BtrfsKey::new(tree_id, item_type::ROOT_ITEM, 0);
    let max = BtrfsKey::new(tree_id, item_type::ROOT_ITEM, 0xffff_ffff_ffff_ffffu64);
    let entries = match root_tree.search_range(&min, &max) {
        Ok(v) => v,
        Err(e) => {
            return Err(e);
        },
    };
    if entries.len() > 0 {
        let ri = match RootItem::from_bytes(entries[0].1.as_slice()) {
            Ok(ri) => ri,
            Err(e) => {
                return Err(e);
            },
        };
        return Ok(BtrfsTree::new(fs, ri.bytenr, ri.level));
    }
    if tree_id == objectid::FS_TREE {
        // A default tree without its own root item falls back to the
        // superblock's root.
        return Ok(BtrfsTree::new(fs, fs.superblock().root(), fs.superblock().root_level()));
    }
    Err(BtrfsError::SubvolumeNotFound(tree_id))
}


/// Decodes a point-lookup outcome for an inode item: a missing item
/// is `InvalidInode`, a found one decodes per the 160-byte layout.
pub fn decode_inode_lookup(ino: u64, found: Option<(Item, Vec<u8>)>) -> (r: Result<
    Inode,
    BtrfsError,
>)
    ensures
        found is None ==> r == Err::<Inode, BtrfsError>(BtrfsError::InvalidInode(ino)),
        found is Some ==> ({
            let body = (found->0).1@;
            &&& (r is Ok <==> body.len() >= 160)
            &&& (r is Ok ==> inode_parsed(ino, body, r->Ok_0))
            &&& (r is Err ==> r->Err_0 is Corrupt)
        }),
{
    match found {
        Some((_item, data)) => Inode::from_bytes(ino, data.as_slice()),
        None => Err(BtrfsError::InvalidInode(ino)),
    }
}

/// Whether a scan entry's body parses as a directory entry.
pub open spec fn dir_body_ok(body: Seq<u8>) -> bool {
    body.len() >= 30 && 30 + spec_le_u16(body, 27) <= body.len()
}

/// How many of the first `n` scan entries parse as directory entries.
pub open spec fn dir_ok_count(s: Seq<(Item, Vec<u8>)>, n: int) -> int
    decreases n,
{
    if n <= 0 {
        0
    } else {
        dir_ok_count(s, n - 1) + if dir_body_ok(s[n - 1].1@) {
            1int
        } else {
            0int
        }
    }
}

proof fn lemma_dir_ok_count_mono(s: Seq<(Item, Vec<u8>)>, a: int, b: int)
    requires
        a <= b,
    ensures
        dir_ok_count(s, a) <= dir_ok_count(s, b),
    decreases b - a,
{
    if a < b {
        lemma_dir_ok_count_mono(s, a, b - 1);
    }
}

/// Decodes the entries of a directory scan in order, skipping bodies
/// that do not parse: for each parseable entry `i`, its decode stands
/// at position `dir_ok_count(entries, i)` of the result.
pub fn decode_dir_entries(entries: &Vec<(Item, Vec<u8>)>) -> (r: Vec<DirEntry>)
    ensures
        r@.len() == dir_ok_count(entries@, entries@.len() as int),
        forall|i: int|
            0 <= i < entries@.len() && dir_body_ok((#[trigger] entries@[i]).1@)
                ==> dir_entry_parsed(entries@[i].1@, 0, r@[dir_ok_count(entries@, i)]),
{
    let n: usize = entries.len();
    let mut out: Vec<DirEntry> = Vec::new();
    let mut i: usize = 0;
    while i < n
        invariant
            n == entries@.len(),
            i <= n,
            out@.len() == dir_ok_count(entries@, i as int),
            forall|j: int|
                0 <= j < i && dir_body_ok((#[trigger] entries@[j]).1@) ==> dir_entry_parsed(
                    entries@[j].1@,
                    0,
                    out@[dir_ok_count(entries@, j)],
                ),
        decreases n - i,
    {
        match DirEntry::from_bytes(entries[i].1.as_slice()) {
            Ok(e) => {
                let ghost old_out = out@;
                let ghost ge = e;
                out.push(e);
                proof {
                    assert forall|j: int|
                        0 <= j < i + 1 && dir_body_ok((#[trigger] entries@[j]).1@)
                        implies dir_entry_parsed(
                        entries@[j].1@,
                        0,
                        out@[dir_ok_count(entries@, j)],
                    ) by {
                        if j < i {
                            assert(dir_ok_count(entries@, j + 1) == dir_ok_count(entries@, j)
                                + 1);
                            lemma_dir_ok_count_mono(entries@, 0, j);
                            lemma_dir_ok_count_mono(entries@, j + 1, i as int);
                            assert(dir_ok_count(entries@, j) < old_out.len());
                            assert(dir_entry_parsed(
                                entries@[j].1@,
                                0,
                                old_out[dir_ok_count(entries@, j)],
                            ));
                            assert(out@ == old_out.push(ge));
                            assert(old_out.push(ge)[dir_ok_count(entries@, j)]
                                == old_out[dir_ok_count(entries@, j)]);
                        } else {
                            assert(j == i);
                            assert(dir_ok_count(entries@, i as int) == old_out.len());
                            assert(out@[old_out.len() as int] == ge);
                            assert(dir_entry_parsed(entries@[i as int].1@, 0, ge));
                        }
                    }
                }
            },
            Err(_) => {
                proof {
                    assert(!dir_body_ok(entries@[i as int].1@));
                }
            },
        }
        i = i + 1;
    }
    out
}

/// Whether a scan entry's body parses as an inode ref.
pub open spec fn iref_body_ok(body: Seq<u8>) -> bool {
    body.len() >= 10 && 10 + spec_le_u16(body, 8) <= body.len()
}

/// How many of the first `n` scan entries parse as inode refs.
pub open spec fn iref_ok_count(s: Seq<(Item, Vec<u8>)>, n: int) -> int
    decreases n,
{
    if n <= 0 {
        0
    } else {
        iref_ok_count(s, n - 1) + if iref_body_ok(s[n - 1].1@) {
            1int
        } else {
            0int
        }
    }
}

proof fn lemma_iref_ok_count_mono(s: Seq<(Item, Vec<u8>)>, a: int, b: int)
    requires
        a <= b,
    ensures
        iref_ok_count(s, a) <= iref_ok_count(s, b),
    decreases b - a,
{
    if a < b {
        lemma_iref_ok_count_mono(s, a, b - 1);
    }
}

/// Decodes the entries of an inode-ref scan in order, skipping bodies
/// that do not parse, pairing each ref with its parent directory (the
/// key's offset field): for each parseable entry `i`, the pair stands
/// at position `iref_ok_count(entries, i)` of the result.
pub fn decode_inode_refs(entries: &Vec<(Item, Vec<u8>)>) -> (r: Vec<(u64, InodeRef)>)
    ensures
        r@.len() == iref_ok_count(entries@, entries@.len() as int),
        forall|i: int|
            0 <= i < entries@.len() && iref_body_ok((#[trigger] entries@[i]).1@) ==> ({
                let k = iref_ok_count(entries@, i);
                &&& r@[k].0 == entries@[i].0.key.offset
                &&& inode_ref_parsed(entries@[i].1@, r@[k].1)
            }),
{
    let n: usize = entries.len();
    let mut out: Vec<(u64, InodeRef)> = Vec::new();
    let mut i: usize = 0;
    while i < n
        invariant
            n == entries@.len(),
            i <= n,
            out@.len() == iref_ok_count(entries@, i as int),
            forall|j: int|
                0 <= j < i && iref_body_ok((#[trigger] entries@[j]).1@) ==> ({
                    let k = iref_ok_count(entries@, j);
                    &&& out@[k].0 == entries@[j].0.key.offset
                    &&& inode_ref_parsed(entries@[j].1@, out@[k].1)
                }),
        decreases n - i,
    {
        let item = entries[i].0;
        match InodeRef::from_bytes(entries[i].1.as_slice()) {
            Ok(iref) => {
                let ghost old_out = out@;
                let ghost gref = iref;
                out.push((item.key.offset, iref));
                proof {
                    assert forall|j: int|
                        0 <= j < i + 1 && iref_body_ok((#[trigger] entries@[j]).1@) implies ({
                        let k = iref_ok_count(entries@, j);
                        &&& out@[k].0 == entries@[j].0.key.offset
                        &&& inode_ref_parsed(entries@[j].1@, out@[k].1)
                    }) by {
                        if j < i {
                            assert(iref_ok_count(entries@, j + 1) == iref_ok_count(entries@, j)
                                + 1);
                            lemma_iref_ok_count_mono(entries@, 0, j);
                            lemma_iref_ok_count_mono(entries@, j + 1, i as int);
                            assert(iref_ok_count(entries@, j) < old_out.len());
                            assert(old_out[iref_ok_count(entries@, j)].0 == entries@[j].0.key.offset
                                && inode_ref_parsed(
                                entries@[j].1@,
                                old_out[iref_ok_count(entries@, j)].1,
                            ));
                            assert(out@ == old_out.push((item.key.offset, gref)));
                            assert(old_out.push((item.key.offset, gref))[iref_ok_count(
                                entries@,
                                j,
                            )] == old_out[iref_ok_count(entries@, j)]);
                        } else {
                            assert(j == i);
                            assert(iref_ok_count(entries@, i as int) == old_out.len());
                            assert(out@[old_out.len() as int] == (item.key.offset, gref));
                            assert(inode_ref_parsed(entries@[i as int].1@, gref));
                        }
                    }
                }
            },
            Err(_) => {
                proof {
                    assert(!iref_body_ok(entries@[i as int].1@));
                }
            },
        }
        i = i + 1;
    }
    out
}

/// Reads the inode item of `ino` from the given tree; a missing item
/// is `InvalidInode`; a found one decodes per `decode_inode_lookup`.
pub fn read_inode<D: BlockDevice>(fs: &BtrfsFilesystem<D>, tree_id: u64, ino: u64) -> (r: Result<
    Inode,
    BtrfsError,
>)
    requires
        fs.wf(),
    ensures
        r is Ok ==> r->Ok_0.ino == ino,
{
    let tree = match tree_for(fs, tree_id) {
        Ok(t) => t,
        Err(e) => {
            return Err(e);
        },
    };
    let key = BtrfsKey::new(ino, item_type::INODE_ITEM, 0);
    match tree.search(&key) {
        Ok(found) => decode_inode_lookup(ino, found),
        Err(e) => Err(e),
    }
}

/// Reads the directory entries of `ino`, ordered by their sequence
/// numbers (`DIR_INDEX` keys). Entries whose bodies do not parse are
/// skipped.
pub fn read_dir<D: BlockDevice>(fs: &BtrfsFilesystem<D>, tree_id: u64, ino: u64) -> (r: Result<
    Vec<DirEntry>,
    BtrfsError,
>)
    requires
        fs.wf(),
{
    let tree = match tree_for(fs, tree_id) {
        Ok(t) => t,
        Err(e) => {
            return Err(e);
        },
    };
    let min = BtrfsKey::new(ino, item_type::DIR_INDEX, 0);
    let max = BtrfsKey::new(ino, item_type::DIR_INDEX, 0xffff_ffff_ffff_ffffu64);
    let entries = match tree.search_range(&min, &max) {
        Ok(v) => v,
        Err(e) => {
            return Err(e);
        },
    };
    Ok(decode_dir_entries(&entries))
}

/// Looks `name` up in the directory `dir_ino`: searches the
/// `DIR_ITEM` keyed by the name hash and picks the packed entry whose
/// name matches byte for byte, so hash collisions cannot divert the
/// lookup.
pub fn lookup<D: BlockDevice>(
    fs: &BtrfsFilesystem<D>,
    tree_id: u64,
    dir_ino: u64,
    name: &str,
) -> (r: Result<DirEntry, BtrfsError>)
    requires
        fs.wf(),
    ensures
        r is Ok ==> r->Ok_0.name_bytes@ == name.spec_bytes(),
{
    let name_hash = btrfs_name_hash(name);
    let tree = match tree_for(fs, tree_id) {
        Ok(t) => t,
        Err(e) => {
            return Err(e);
        },
    };
    let key = BtrfsKey::new(dir_ino, item_type::DIR_ITEM, name_hash);
    match tree.search(&key) {
        Ok(Some((_item, data))) => {
            match dir_item_find(data.as_slice(), name.as_bytes()) {
                Ok(Some(entry)) => Ok(entry),
                Ok(None) => Err(BtrfsError::NotFound(name.to_owned())),
                Err(e) => Err(e),
            }
        },
        Ok(None) => Err(BtrfsError::NotFound(name.to_owned())),
        Err(e) => Err(e),
    }
}

/// Reads the file extent items of `ino`, in file order. Items whose
/// bodies do not parse are skipped.
pub fn read_file_extents<D: BlockDevice>(
    fs: &BtrfsFilesystem<D>,
    tree_id: u64,
    ino: u64,
) -> (r: Result<Vec<ExtentData>, BtrfsError>)
    requires
        fs.wf(),
{
    let with_offsets = match file_extents_with_offsets(fs, tree_id, ino) {
        Ok(v) => v,
        Err(e) => {
            return Err(e);
        },
    };
    let n: usize = with_offsets.len();
    let mut out: Vec<ExtentData> = Vec::new();
    let mut i: usize = 0;
    while i < n
        invariant
            n == with_offsets@.len(),
            i <= n,
        decreases n - i,
    {
        let e = with_offsets[i].1.clone();
        out.push(e);
        i = i + 1;
    }
    Ok(out)
}


/// Whether a scan entry's body parses as a file extent item.
pub open spec fn extent_body_ok(body: Seq<u8>) -> bool {
    body.len() >= 21 && (body[20] == 0 || body.len() >= 53)
}

/// How many of the first `n` scan entries parse as file extent items.
pub open spec fn extent_ok_count(s: Seq<(Item, Vec<u8>)>, n: int) -> int
    decreases n,
{
    if n <= 0 {
        0
    } else {
        extent_ok_count(s, n - 1) + if extent_body_ok(s[n - 1].1@) {
            1int
        } else {
            0int
        }
    }
}

proof fn lemma_extent_ok_count_mono(s: Seq<(Item, Vec<u8>)>, a: int, b: int)
    requires
        a <= b,
    ensures
        extent_ok_count(s, a) <= extent_ok_count(s, b),
    decreases b - a,
{
    if a < b {
        lemma_extent_ok_count_mono(s, a, b - 1);
    }
}

/// Decodes the entries of a file-extent scan in order, skipping
/// bodies that do not parse, pairing each extent with its in-file
/// start position (the key's offset field): for each parseable entry
/// `i`, the pair stands at position `extent_ok_count(entries, i)` of
/// the result.
pub fn decode_file_extents(entries: &Vec<(Item, Vec<u8>)>) -> (r: Vec<(u64, ExtentData)>)
    ensures
        r@.len() == extent_ok_count(entries@, entries@.len() as int),
        forall|i: int|
            0 <= i < entries@.len() && extent_body_ok((#[trigger] entries@[i]).1@) ==> ({
                let k = extent_ok_count(entries@, i);
                &&& r@[k].0 == entries@[i].0.key.offset
                &&& extent_data_parsed(entries@[i].1@, r@[k].1)
            }),
{
    let n: usize = entries.len();
    let mut out: Vec<(u64, ExtentData)> = Vec::new();
    let mut i: usize = 0;
    while i < n
        invariant
            n == entries@.len(),
            i <= n,
            out@.len() == extent_ok_count(entries@, i as int),
            forall|j: int|
                0 <= j < i && extent_body_ok((#[trigger] entries@[j]).1@) ==> ({
                    let k = extent_ok_count(entries@, j);
                    &&& out@[k].0 == entries@[j].0.key.offset
                    &&& extent_data_parsed(entries@[j].1@, out@[k].1)
                }),
        decreases n - i,
    {
        let item = entries[i].0;
        match ExtentData::from_bytes(entries[i].1.as_slice()) {
            Ok(e) => {
                let ghost old_out = out@;
                let ghost gext = e;
                out.push((item.key.offset, e));
                proof {
                    assert forall|j: int|
                        0 <= j < i + 1 && extent_body_ok((#[trigger] entries@[j]).1@) implies ({
                        let k = extent_ok_count(entries@, j);
                        &&& out@[k].0 == entries@[j].0.key.offset
                        &&& extent_data_parsed(entries@[j].1@, out@[k].1)
                    }) by {
                        if j < i {
                            assert(extent_ok_count(entries@, j + 1) == extent_ok_count(
                                entries@,
                                j,
                            ) + 1);
                            lemma_extent_ok_count_mono(entries@, 0, j);
                            lemma_extent_ok_count_mono(entries@, j + 1, i as int);
                            assert(extent_ok_count(entries@, j) < old_out.len());
                            assert(out@ == old_out.push((item.key.offset, gext)));
                            assert(old_out.push((item.key.offset, gext))[extent_ok_count(
                                entries@,
                                j,
                            )] == old_out[extent_ok_count(entries@, j)]);
                        } else {
                            assert(j == i);
                            assert(extent_ok_count(entries@, i as int) == old_out.len());
                            assert(out@[old_out.len() as int] == (item.key.offset, gext));
                            assert(extent_data_parsed(entries@[i as int].1@, gext));
                        }
                    }
                }
            },
            Err(_) => {
                proof {
                    assert(!extent_body_ok(entries@[i as int].1@));
                }
            },
        }
        i = i + 1;
    }
    out
}

/// Checks that extents carry strictly increasing file offsets.
pub fn check_extents_sorted(v: &Vec<(u64, ExtentData)>) -> (r: bool)
    ensures
        r == extent_offsets_sorted(v@),
{
    let n: usize = v.len();
    if n == 0 {
        return true;
    }
    let mut i: usize = 0;
    while i < n - 1
        invariant
            n == v@.len(),
            n >= 1,
            i <= n - 1,
            forall|j: int| 0 <= j < i ==> (#[trigger] v@[j]).0 < v@[j + 1].0,
        decreases n - i,
    {
        if v[i].0 >= v[i + 1].0 {
            proof {
                assert(!extent_offsets_sorted(v@));
            }
            return false;
        }
        i = i + 1;
    }
    true
}

/// Reads the file extent items of `ino` with their in-file start
/// positions (the key offsets), in file order: the decodings of the
/// scan per `decode_file_extents`, rejected as corrupt if their
/// offsets are not strictly increasing.
fn file_extents_with_offsets<D: BlockDevice>(
    fs: &BtrfsFilesystem<D>,
    tree_id: u64,
    ino: u64,
) -> (r: Result<Vec<(u64, ExtentData)>, BtrfsError>)
    requires
        fs.wf(),
    ensures
        r is Ok ==> extent_offsets_sorted(r->Ok_0@),
{
    let tree = match tree_for(fs, tree_id) {
        Ok(t) => t,
        Err(e) => {
            return Err(e);
        },
    };
    let min = BtrfsKey::new(ino, item_type::EXTENT_DATA, 0);
    let max = BtrfsKey::new(ino, item_type::EXTENT_DATA, 0xffff_ffff_ffff_ffffu64);
    let entries = match tree.search_range(&min, &max) {
        Ok(v) => v,
        Err(e) => {
            return Err(e);
        },
    };
    let out = decode_file_extents(&entries);
    if !check_extents_sorted(&out) {
        return Err(BtrfsError::Corrupt("file extents out of file order".to_owned()));
    }
    Ok(out)
}

/// Whether extent entries carry strictly increasing file offsets.
pub open spec fn extent_offsets_sorted(s: Seq<(u64, ExtentData)>) -> bool {
    forall|i: int| 0 <= i < s.len() - 1 ==> (#[trigger] s[i]).0 < s[i + 1].0
}

proof fn lemma_offsets_increasing(s: Seq<(u64, ExtentData)>, a: int, b: int)
    requires
        extent_offsets_sorted(s),
        0 <= a < b < s.len(),
    ensures
        s[a].0 < s[b].0,
    decreases b - a,
{
    if a + 1 < b {
        lemma_offsets_increasing(s, a + 1, b);
    }
}

/// Reads the names of `ino` in its parent directories: one
/// `(parent_ino, ref)` pair per inode ref. Items whose bodies do not
/// parse are skipped.
pub fn get_inode_refs<D: BlockDevice>(
    fs: &BtrfsFilesystem<D>,
    tree_id: u64,
    ino: u64,
) -> (r: Result<Vec<(u64, InodeRef)>, BtrfsError>)
    requires
        fs.wf(),
{
    let tree = match tree_for(fs, tree_id) {
        Ok(t) => t,
        Err(e) => {
            return Err(e);
        },
    };
    let min = BtrfsKey::new(ino, item_type::INODE_REF, 0);
    let max = BtrfsKey::new(ino, item_type::INODE_REF, 0xffff_ffff_ffff_ffffu64);
    let entries = match tree.search_range(&min, &max) {
        Ok(v) => v,
        Err(e) => {
            return Err(e);
        },
    };
    Ok(decode_inode_refs(&entries))
}

/// Whether a sequence of characters is a path component: non-empty
/// and free of both separators.
pub open spec fn is_path_component(c: Seq<char>) -> bool {
    c.len() > 0 && forall|j: int| 0 <= j < c.len() ==> c[j] != '/' && c[j] != '\\'
}

/// The index of the first path separator of `s` at or after `i`, or
/// `s.len()`.
pub open spec fn next_sep(s: Seq<char>, i: int) -> int
    decreases s.len() - i,
{
    if i >= s.len() {
        i
    } else if s[i] == '/' || s[i] == '\\' {
        i
    } else {
        next_sep(s, i + 1)
    }
}

proof fn lemma_next_sep_bounds(s: Seq<char>, i: int)
    ensures
        next_sep(s, i) >= i,
        i <= s.len() ==> next_sep(s, i) <= s.len(),
    decreases s.len() - i,
{
    if i < s.len() && s[i] != '/' && s[i] != '\\' {
        lemma_next_sep_bounds(s, i + 1);
    }
}

proof fn lemma_next_sep(s: Seq<char>, j: int, i: int)
    requires
        0 <= j <= i <= s.len(),
        forall|k: int| j <= k < i ==> s[k] != '/' && s[k] != '\\',
        i == s.len() || s[i] == '/' || s[i] == '\\',
    ensures
        next_sep(s, j) == i,
    decreases i - j,
{
    if j < i {
        lemma_next_sep(s, j + 1, i);
    }
}

/// The non-empty components of the path from position `i` on: the
/// maximal separator-free runs, in order.
pub open spec fn path_split(s: Seq<char>, i: int) -> Seq<Seq<char>>
    decreases s.len() - i + 1 via path_split_decreases
{
    if i > s.len() {
        Seq::<Seq<char>>::empty()
    } else {
        let j = next_sep(s, i);
        let piece = s.subrange(i, j);
        let rest = if j >= s.len() {
            Seq::<Seq<char>>::empty()
        } else {
            path_split(s, j + 1)
        };
        if piece.len() > 0 {
            seq![piece] + rest
        } else {
            rest
        }
    }
}

#[via_fn]
proof fn path_split_decreases(s: Seq<char>, i: int) {
    lemma_next_sep_bounds(s, i);
}

/// Splits a path on `/` and `\` and drops empty components: exactly
/// the separator-free runs of the path, in order.
pub fn parse_path_components(path: &str) -> (r: Vec<&str>)
    ensures
        r@.len() == path_split(path@, 0).len(),
        forall|k: int| 0 <= k < r@.len() ==> (#[trigger] r@[k])@ == path_split(path@, 0)[k],
        forall|i: int| 0 <= i < r@.len() ==> is_path_component((#[trigger] r@[i])@),
{
    let n: usize = path.unicode_len();
    let mut out: Vec<&str> = Vec::new();
    let mut start: usize = 0;
    let mut i: usize = 0;
    while i < n
        invariant
            n == path@.len(),
            start <= i <= n,
            forall|j: int| start <= j < i ==> path@[j] != '/' && path@[j] != '\\',
            forall|k: int| 0 <= k < out@.len() ==> is_path_component((#[trigger] out@[k])@),
            path_split(path@, 0) =~= Seq::new(out@.len() as nat, |k: int| out@[k]@) + path_split(
                path@,
                start as int,
            ),
        decreases n - i,
    {
        let c = path.get_char(i);
        if c == '/' || c == '\\' {
            proof {
                lemma_next_sep(path@, start as int, i as int);
            }
            let ghost old_out = out@;
            if i > start {
                let comp = path.substring_char(start, i);
                out.push(comp);
            }
            proof {
                assert(path_split(path@, 0) =~= Seq::new(
                    out@.len() as nat,
                    |k: int| out@[k]@,
                ) + path_split(path@, i as int + 1));
            }
            start = i + 1;
        }
        i = i + 1;
    }
    proof {
        lemma_next_sep(path@, start as int, n as int);
    }
    if i > start {
        let comp = path.substring_char(start, i);
        out.push(comp);
    }
    proof {
        assert(path_split(path@, 0) =~= Seq::new(out@.len() as nat, |k: int| out@[k]@));
        assert forall|k: int| 0 <= k < out@.len() implies (#[trigger] out@[k])@ == path_split(
            path@,
            0,
        )[k] by {
            assert(path_split(path@, 0)[k] == Seq::new(out@.len() as nat, |q: int| out@[q]@)[k]);
        }
    }
    out
}

/// Resolves a path to an inode: splits on both separators, starts at
/// the root directory inode, looks each component up in turn, and
/// reads the final inode. A component whose entry points into
/// another subvolume surfaces the boundary as an unsupported
/// feature.
pub fn resolve_path<D: BlockDevice>(fs: &BtrfsFilesystem<D>, tree_id: u64, path: &str) -> (r:
    Result<(u64, Inode), BtrfsError>)
    requires
        fs.wf(),
    ensures
        r is Ok ==> r->Ok_0.1.ino == r->Ok_0.0,
{
    let components = parse_path_components(path);
    let mut current_ino: u64 = objectid::FIRST_FREE;
    let n: usize = components.len();
    let mut i: usize = 0;
    while i < n
        invariant
            fs.wf(),
            n == components@.len(),
            i <= n,
        decreases n - i,
    {
        let entry = match lookup(fs, tree_id, current_ino, components[i]) {
            Ok(e) => e,
            Err(e) => {
                return Err(e);
            },
        };
        if entry.location_type == item_type::ROOT_ITEM {
            return Err(
                BtrfsError::UnsupportedFeature("path crosses a subvolume boundary".to_owned()),
            );
        }
        current_ino = entry.ino;
        i = i + 1;
    }
    let inode = match read_inode(fs, tree_id, current_ino) {
        Ok(ino) => ino,
        Err(e) => {
            return Err(e);
        },
    };
    Ok((current_ino, inode))
}

/// Appends `n` zero bytes.
fn push_zeros(out: &mut Vec<u8>, n: usize)
    requires
        old(out)@.len() + n <= usize::MAX,
    ensures
        final(out)@.len() == old(out)@.len() + n,
        forall|i: int| 0 <= i < old(out)@.len() ==> final(out)@[i] == old(out)@[i],
        forall|i: int| old(out)@.len() <= i < final(out)@.len() ==> final(out)@[i] == 0,
{
    let mut i: usize = 0;
    while i < n
        invariant
            i <= n,
            out@.len() == old(out)@.len() + i,
            forall|k: int| 0 <= k < old(out)@.len() ==> out@[k] == old(out)@[k],
            forall|k: int| old(out)@.len() <= k < out@.len() ==> out@[k] == 0,
        decreases n - i,
    {
        out.push(0);
        i = i + 1;
    }
}

/// Appends `len` bytes of `data` starting at `from`.
fn push_slice(out: &mut Vec<u8>, data: &[u8], from: usize, len: usize)
    requires
        from + len <= data@.len(),
        old(out)@.len() + len <= usize::MAX,
    ensures
        final(out)@ == old(out)@ + data@.subrange(from as int, from as int + len as int),
{
    let piece = copy_bytes(data, from, len);
    let mut piece = piece;
    out.append(&mut piece);
}


/// The number of file bytes an extent covers: the decoded size for an
/// inline extent, the in-file length for an on-disk one.
pub open spec fn spec_extent_len(e: ExtentData) -> int {
    if e.extent_type == 0 {
        e.ram_bytes as int
    } else if e.num_bytes is Some {
        e.num_bytes->0 as int
    } else {
        0
    }
}

/// Whether the extent covers file position `p`. A zero-length extent,
/// or one whose end does not fit a file offset, covers nothing, as
/// the assembler skips it.
pub open spec fn extent_covers(se: (u64, ExtentData), p: int) -> bool {
    let start = se.0 as int;
    let len = spec_extent_len(se.1);
    &&& len > 0
    &&& start + len <= u64::MAX
    &&& start <= p < start + len
}

/// The first extent of the list covering file position `p`, if any.
pub open spec fn covering_extent(exts: Seq<(u64, ExtentData)>, p: int) -> Option<int>
    decreases exts.len(),
{
    if exts.len() == 0 {
        Option::<int>::None
    } else if extent_covers(exts[0], p) {
        Some(0int)
    } else {
        match covering_extent(exts.drop_first(), p) {
            Option::None => Option::<int>::None,
            Option::Some(j) => Some(j + 1),
        }
    }
}

proof fn lemma_covering_none(exts: Seq<(u64, ExtentData)>, p: int)
    requires
        forall|j: int| 0 <= j < exts.len() ==> !extent_covers(#[trigger] exts[j], p),
    ensures
        covering_extent(exts, p) is None,
    decreases exts.len(),
{
    if exts.len() > 0 {
        assert(forall|j: int|
            0 <= j < exts.drop_first().len() ==> #[trigger] exts.drop_first()[j] == exts[j + 1]);
        lemma_covering_none(exts.drop_first(), p);
    }
}

proof fn lemma_covering_at(exts: Seq<(u64, ExtentData)>, p: int, i: int)
    requires
        0 <= i < exts.len(),
        forall|j: int| 0 <= j < i ==> !extent_covers(#[trigger] exts[j], p),
        extent_covers(exts[i], p),
    ensures
        covering_extent(exts, p) == Some(i),
    decreases i,
{
    if i > 0 {
        assert(forall|j: int|
            0 <= j < exts.drop_first().len() ==> #[trigger] exts.drop_first()[j] == exts[j + 1]);
        lemma_covering_at(exts.drop_first(), p, i - 1);
    }
}

/// What the assembled byte at file position `p` must hold, given the
/// extent list: zero outside every extent (gaps and the tail) and
/// inside holes and preallocated extents, and the decoded inline
/// payload byte inside an inline extent. Bytes of written on-disk
/// extents come from the device and are not fixed here; the copied
/// sub-range of a compressed one is fixed by `decode_bytes` on the
/// bytes the device returned.
pub open spec fn assembled_byte_ok(exts: Seq<(u64, ExtentData)>, p: int, b: u8) -> bool {
    match covering_extent(exts, p) {
        Option::None => b == 0,
        Option::Some(ix) => {
            let start = exts[ix].0 as int;
            let e = exts[ix].1;
            if e.extent_type == 0 {
                e.inline_data is Some && ({
                    let d = spec_decode(e.compression, e.inline_data->0@, e.ram_bytes as int);
                    &&& d is Some
                    &&& p - start < d->0.len()
                    &&& b == d->0[p - start]
                })
            } else if e.disk_bytenr is None || e.disk_bytenr->0 == 0 || e.extent_type == 2 {
                b == 0
            } else {
                true
            }
        },
    }
}

/// Assembles the bytes of `[offset, offset + size)` of a file from
/// its extent sequence: inline payloads are decompressed and copied,
/// regular extents are read through the chunk mapping (decompressed
/// when the extent asks for it), holes and preallocated extents read
/// as zeros, and gaps between extents read as zeros. The result holds
/// exactly the requested range, cut down to the file's declared size.
#[verifier::rlimit(100)]
#[verifier::spinoff_prover]
pub fn assemble_file_data<D: BlockDevice>(
    fs: &BtrfsFilesystem<D>,
    inode: &Inode,
    extents: &Vec<(u64, ExtentData)>,
    offset: u64,
    size: usize,
) -> (r: Result<Vec<u8>, BtrfsError>)
    requires
        fs.wf(),
        extent_offsets_sorted(extents@),
    ensures
        r is Ok && offset < inode.size ==> r->Ok_0@.len() == if size as int <= inode.size - offset {
            size as int
        } else {
            inode.size - offset
        },
        r is Ok && offset >= inode.size ==> r->Ok_0@.len() == 0,
        r is Ok ==> forall|k: int|
            0 <= k < r->Ok_0@.len() ==> assembled_byte_ok(extents@, offset + k, #[trigger] r->Ok_0@[
            k]),
{
    if offset >= inode.size {
        return Ok(Vec::new());
    }
    let avail: u64 = inode.size - offset;
    let want: usize = if (size as u64) <= avail {
        size
    } else {
        avail as usize
    };
    let mut out: Vec<u8> = Vec::new();
    let n: usize = extents.len();
    let mut i: usize = 0;
    while i < n && out.len() < want
        invariant
            fs.wf(),
            extent_offsets_sorted(extents@),
            n == extents@.len(),
            i <= n,
            out@.len() <= want,
            offset + want <= inode.size,
            forall|k: int|
                0 <= k < out@.len() ==> assembled_byte_ok(extents@, offset + k, #[trigger] out@[k]),
            out@.len() < want ==> forall|j: int|
                0 <= j < i ==> spec_extent_len((#[trigger] extents@[j]).1) <= 0 || extents@[j].0
                    + spec_extent_len(extents@[j].1) > u64::MAX || extents@[j].0
                    + spec_extent_len(extents@[j].1) <= offset + out@.len(),
        decreases n - i, want - out@.len(),
    {
        let remaining: usize = want - out.len();
        let cur: u64 = offset + (out.len() as u64);
        let ext_start: u64 = extents[i].0;
        let ext = &extents[i].1;
        let ext_len: u64 = if ext.extent_type == 0 {
            ext.ram_bytes
        } else {
            match ext.num_bytes {
                Some(nb) => nb,
                None => 0,
            }
        };
        proof {
            assert(ext_len as int == spec_extent_len(extents@[i as int].1));
            assert(ext_start == extents@[i as int].0);
        }
        if ext_len == 0 || ext_start > u64::MAX - ext_len || ext_start + ext_len <= cur {
            i = i + 1;
            continue;
        }
        if ext_start > cur {
            // An implicit hole before this extent reads as zeros:
            // no extent covers these positions.
            let gap: u64 = ext_start - cur;
            let fill: usize = if gap < remaining as u64 {
                gap as usize
            } else {
                remaining
            };
            let ghost old_len = out@.len() as int;
            push_zeros(&mut out, fill);
            proof {
                assert forall|k: int|
                    old_len <= k < out@.len() implies assembled_byte_ok(
                    extents@,
                    offset + k,
                    #[trigger] out@[k],
                ) by {
                    let p = offset + k;
                    assert(out@[k] == 0);
                    assert(p < ext_start);
                    assert forall|j: int|
                        0 <= j < extents@.len() implies !extent_covers(
                        #[trigger] extents@[j],
                        p,
                    ) by {
                        if j < i {
                            assert(spec_extent_len(extents@[j].1) <= 0 || extents@[j].0
                                + spec_extent_len(extents@[j].1) > u64::MAX || extents@[j].0
                                + spec_extent_len(extents@[j].1) <= offset + old_len);
                        } else if j > i {
                            lemma_offsets_increasing(extents@, i as int, j);
                        }
                    }
                    lemma_covering_none(extents@, p);
                }
            }
            continue;
        }
        // The extent covers `cur`; copy the overlap. It is the first
        // covering extent of every copied position: earlier ones end
        // at or before the current position.
        let sub_start: u64 = cur - ext_start;
        let in_ext: u64 = ext_len - sub_start;
        let take: usize = if in_ext < remaining as u64 {
            in_ext as usize
        } else {
            remaining
        };
        let ghost old_len = out@.len() as int;
        proof {
            assert forall|p: int| cur <= p < cur + take implies covering_extent(extents@, p)
                == Some(i as int) by {
                assert forall|j: int| 0 <= j < i implies !extent_covers(
                    #[trigger] extents@[j],
                    p,
                ) by {
                    assert(spec_extent_len(extents@[j].1) <= 0 || extents@[j].0
                        + spec_extent_len(extents@[j].1) > u64::MAX || extents@[j].0
                        + spec_extent_len(extents@[j].1) <= offset + old_len);
                }
                assert(extent_covers(extents@[i as int], p));
                lemma_covering_at(extents@, p, i as int);
            }
        }
        if ext.extent_type == 0 {
            // Inline: decode the payload and copy the sub-range.
            let payload = match &ext.inline_data {
                Some(p) => p,
                None => {
                    return Err(BtrfsError::Corrupt("inline extent without payload".to_owned()));
                },
            };
            let ram: usize = if ext.ram_bytes <= usize::MAX as u64 {
                ext.ram_bytes as usize
            } else {
                return Err(BtrfsError::Corrupt("inline extent declared size too large".to_owned()));
            };
            let decoded = match decode_bytes(ext.compression, payload.as_slice(), ram) {
                Ok(d) => d,
                Err(e) => {
                    return Err(e);
                },
            };
            if sub_start > decoded.len() as u64 || (decoded.len() as u64) - sub_start
                < take as u64 {
                return Err(
                    BtrfsError::DecompressionError(
                        "inline extent shorter than declared".to_owned(),
                    ),
                );
            }
            push_slice(&mut out, decoded.as_slice(), sub_start as usize, take);
            proof {
                assert forall|k: int|
                    old_len <= k < out@.len() implies assembled_byte_ok(
                    extents@,
                    offset + k,
                    #[trigger] out@[k],
                ) by {
                    let p = offset + k;
                    assert(covering_extent(extents@, p) == Some(i as int));
                    assert(out@[k] == decoded@[sub_start + (k - old_len)]);
                    assert(decoded@ == spec_decode(
                        extents@[i as int].1.compression,
                        extents@[i as int].1.inline_data->0@,
                        extents@[i as int].1.ram_bytes as int,
                    )->0);
                    assert(p - extents@[i as int].0 == sub_start + (k - old_len));
                }
            }
        } else {
            let disk_bytenr = match ext.disk_bytenr {
                Some(b) => b,
                None => 0,
            };
            if disk_bytenr == 0 || ext.extent_type == 2 {
                // A hole or a preallocated extent reads as zeros.
                push_zeros(&mut out, take);
                proof {
                    assert forall|k: int|
                        old_len <= k < out@.len() implies assembled_byte_ok(
                        extents@,
                        offset + k,
                        #[trigger] out@[k],
                    ) by {
                        assert(covering_extent(extents@, offset + k) == Some(i as int));
                        assert(out@[k] == 0);
                    }
                }
            } else if ext.compression == 0 {
                // Plain on-disk data: read the overlap directly.
                let ext_off = match ext.offset {
                    Some(o) => o,
                    None => 0,
                };
                if ext_off > u64::MAX - disk_bytenr || sub_start > u64::MAX - (disk_bytenr
                    + ext_off) {
                    return Err(BtrfsError::Corrupt("extent read position overflows".to_owned()));
                }
                let logical: u64 = disk_bytenr + ext_off + sub_start;
                let data = match fs.read_logical(logical, take) {
                    Ok(d) => d,
                    Err(e) => {
                        return Err(e);
                    },
                };
                let mut data = data;
                out.append(&mut data);
                proof {
                    assert forall|k: int|
                        old_len <= k < out@.len() implies assembled_byte_ok(
                        extents@,
                        offset + k,
                        #[trigger] out@[k],
                    ) by {
                        assert(covering_extent(extents@, offset + k) == Some(i as int));
                    }
                }
            } else {
                // Compressed on-disk data: read the whole compressed
                // extent, decode it through `decode_bytes` (whose
                // contract fixes the output per value of the bytes
                // the device returned), and copy the sub-range.
                let disk_len_u64 = match ext.disk_num_bytes {
                    Some(l) => l,
                    None => 0,
                };
                if disk_len_u64 > usize::MAX as u64 || ext.ram_bytes > usize::MAX as u64 {
                    return Err(BtrfsError::Corrupt("extent sizes too large".to_owned()));
                }
                let data = match fs.read_logical(disk_bytenr, disk_len_u64 as usize) {
                    Ok(d) => d,
                    Err(e) => {
                        return Err(e);
                    },
                };
                let decoded = match decode_bytes(
                    ext.compression,
                    data.as_slice(),
                    ext.ram_bytes as usize,
                ) {
                    Ok(d) => d,
                    Err(e) => {
                        return Err(e);
                    },
                };
                let ext_off = match ext.offset {
                    Some(o) => o,
                    None => 0,
                };
                if ext_off > u64::MAX - sub_start || ext_off + sub_start > decoded.len() as u64
                    || (decoded.len() as u64) - (ext_off + sub_start) < take as u64 {
                    return Err(
                        BtrfsError::DecompressionError(
                            "compressed extent shorter than declared".to_owned(),
                        ),
                    );
                }
                push_slice(&mut out, decoded.as_slice(), (ext_off + sub_start) as usize, take);
                proof {
                    assert forall|k: int|
                        old_len <= k < out@.len() implies assembled_byte_ok(
                        extents@,
                        offset + k,
                        #[trigger] out@[k],
                    ) by {
                        assert(covering_extent(extents@, offset + k) == Some(i as int));
                    }
                }
            }
        }
        i = i + 1;
    }
    if out.len() < want {
        // The extent list ended before the requested range: no extent
        // covers the tail, which reads as zeros.
        let ghost old_len = out@.len() as int;
        let fill: usize = want - out.len();
        push_zeros(&mut out, fill);
        proof {
            assert forall|k: int|
                old_len <= k < out@.len() implies assembled_byte_ok(
                extents@,
                offset + k,
                #[trigger] out@[k],
            ) by {
                let p = offset + k;
                assert(out@[k] == 0);
                assert forall|j: int|
                    0 <= j < extents@.len() implies !extent_covers(#[trigger] extents@[j], p) by {
                    assert(spec_extent_len(extents@[j].1) <= 0 || extents@[j].0 + spec_extent_len(
                        extents@[j].1,
                    ) > u64::MAX || extents@[j].0 + spec_extent_len(extents@[j].1) <= offset
                        + old_len);
                }
                lemma_covering_none(extents@, p);
            }
        }
    }
    Ok(out)
}

/// Reads up to `size` bytes of the file `ino` starting at byte
/// `offset`: scans the extent items, assembles the overlap of each
/// with the requested range, and cuts the result to the file's
/// declared size. An inode that is not a regular file is `NotAFile`.
pub fn read_file_data<D: BlockDevice>(
    fs: &BtrfsFilesystem<D>,
    tree_id: u64,
    ino: u64,
    offset: u64,
    size: usize,
) -> (r: Result<Vec<u8>, BtrfsError>)
    requires
        fs.wf(),
    ensures
        r is Ok ==> r->Ok_0@.len() <= size,
{
    let inode = match read_inode(fs, tree_id, ino) {
        Ok(ind) => ind,
        Err(e) => {
            return Err(e);
        },
    };
    if !inode.is_file() {
        return Err(BtrfsError::NotAFile);
    }
    let extents = match file_extents_with_offsets(fs, tree_id, ino) {
        Ok(v) => v,
        Err(e) => {
            return Err(e);
        },
    };
    let out = match assemble_file_data(fs, &inode, &extents, offset, size) {
        Ok(v) => v,
        Err(e) => {
            return Err(e);
        },
    };
    proof {
        if offset < inode.size {
            assert(out@.len() <= size);
        }
    }
    Ok(out)
}

} // verus!
