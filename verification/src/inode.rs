//! Decoders for the read path's item kinds: inodes, directory
//! entries, inode refs, and file extents.

use vstd::prelude::*;
use vstd::slice::slice_subrange;

use crate::bytes::{bytes_eq, copy_bytes, le_i64, le_u16, le_u32, le_u64};
use crate::bytes::{spec_le_i64, spec_le_u16, spec_le_u32, spec_le_u64};
use crate::error::BtrfsError;
use crate::strutil::{utf8_lossy, utf8_lossy_of};

verus! {

/// The kinds an inode or directory entry can have.
#[derive(Debug, Clone, Copy, PartialEq, Eq, Structural)]
pub enum InodeType {
    Unknown,
    File,
    Directory,
    Symlink,
    BlockDevice,
    CharDevice,
    Fifo,
    Socket,
}

/// The inode type a directory-entry type byte names.
pub open spec fn spec_from_dir_type(t: u8) -> InodeType {
    if t == 1 {
        InodeType::File
    } else if t == 2 {
        InodeType::Directory
    } else if t == 3 {
        InodeType::CharDevice
    } else if t == 4 {
        InodeType::BlockDevice
    } else if t == 5 {
        InodeType::Fifo
    } else if t == 6 {
        InodeType::Socket
    } else if t == 7 {
        InodeType::Symlink
    } else {
        InodeType::Unknown
    }
}

/// The inode type the top nibble of a POSIX mode names.
pub open spec fn spec_from_mode(mode: u32) -> InodeType {
    let t = mode & 0o170000;
    if t == 0o100000 {
        InodeType::File
    } else if t == 0o040000 {
        InodeType::Directory
    } else if t == 0o120000 {
        InodeType::Symlink
    } else if t == 0o060000 {
        InodeType::BlockDevice
    } else if t == 0o020000 {
        InodeType::CharDevice
    } else if t == 0o010000 {
        InodeType::Fifo
    } else if t == 0o140000 {
        InodeType::Socket
    } else {
        InodeType::Unknown
    }
}

impl InodeType {
    /// Maps a directory-entry type byte to the inode type.
    pub fn from_dir_type(t: u8) -> (r: Self)
        ensures
            r == spec_from_dir_type(t),
    {
        match t {
            1u8 => InodeType::File,
            2u8 => InodeType::Directory,
            3u8 => InodeType::CharDevice,
            4u8 => InodeType::BlockDevice,
            5u8 => InodeType::Fifo,
            6u8 => InodeType::Socket,
            7u8 => InodeType::Symlink,
            _ => InodeType::Unknown,
        }
    }

    /// Maps POSIX mode bits to the inode type.
    pub fn from_mode(mode: u32) -> (r: Self)
        ensures
            r == spec_from_mode(mode),
    {
        let t = mode & 0o170000;
        if t == 0o100000 {
            InodeType::File
        } else if t == 0o040000 {
            InodeType::Directory
        } else if t == 0o120000 {
            InodeType::Symlink
        } else if t == 0o060000 {
            InodeType::BlockDevice
        } else if t == 0o020000 {
            InodeType::CharDevice
        } else if t == 0o010000 {
            InodeType::Fifo
        } else if t == 0o140000 {
            InodeType::Socket
        } else {
            InodeType::Unknown
        }
    }

    /// True iff this is the regular file type.
    pub fn is_file(&self) -> (r: bool)
        ensures
            r == (*self == InodeType::File),
    {
        match self {
            InodeType::File => true,
            _ => false,
        }
    }

    /// True iff this is the directory type.
    pub fn is_dir(&self) -> (r: bool)
        ensures
            r == (*self == InodeType::Directory),
    {
        match self {
            InodeType::Directory => true,
            _ => false,
        }
    }
}

/// A timestamp: seconds since the epoch and nanoseconds.
#[derive(Debug, Clone, Copy, PartialEq, Eq, Structural)]
pub struct TimeSpec {
    /// Seconds since the epoch.
    pub sec: i64,
    /// Nanoseconds.
    pub nsec: u32,
}

impl Default for TimeSpec {
    /// The zero timestamp.
    fn default() -> (r: Self)
        ensures
            r.sec == 0 && r.nsec == 0,
    {
        TimeSpec { sec: 0, nsec: 0 }
    }
}

/// The timestamp serialized at byte offset `off`: an `i64` of seconds
/// then a `u32` of nanoseconds.
pub open spec fn spec_timespec_at(data: Seq<u8>, off: int) -> TimeSpec {
    TimeSpec { sec: spec_le_i64(data, off), nsec: spec_le_u32(data, off + 8) }
}

/// Parses the timestamp serialized at byte offset `off`.
pub fn timespec_at(data: &[u8], off: usize) -> (r: TimeSpec)
    requires
        off + 12 <= data@.len(),
    ensures
        r == spec_timespec_at(data@, off as int),
{
    let _n: usize = data.len();
    TimeSpec { sec: le_i64(data, off), nsec: le_u32(data, off + 8) }
}

/// An inode item: file metadata.
#[derive(Debug, Clone)]
pub struct Inode {
    /// Inode number (the item key's object id).
    pub ino: u64,
    /// Generation.
    pub generation: u64,
    /// Transaction id.
    pub transid: u64,
    /// Size in bytes.
    pub size: u64,
    /// Allocated bytes.
    pub nbytes: u64,
    /// Block group hint.
    pub block_group: u64,
    /// Number of hard links.
    pub nlink: u32,
    /// Owner user id.
    pub uid: u32,
    /// Owner group id.
    pub gid: u32,
    /// POSIX mode bits; the top nibble is the type.
    pub mode: u32,
    /// Device number, for device nodes.
    pub rdev: u64,
    /// Inode flags.
    pub flags: u64,
    /// Sequence number.
    pub sequence: u64,
    /// Access time.
    pub atime: TimeSpec,
    /// Change time.
    pub ctime: TimeSpec,
    /// Modification time.
    pub mtime: TimeSpec,
    /// Creation time.
    pub otime: TimeSpec,
}

/// Holds iff `r` carries the inode item serialized at the start of
/// `data`, for inode number `ino`. The four timestamps follow the
/// 32 reserved bytes, at offset 112, inside the 160-byte item.
pub open spec fn inode_parsed(ino: u64, data: Seq<u8>, r: Inode) -> bool {
    &&& r.ino == ino
    &&& r.generation == spec_le_u64(data, 0)
    &&& r.transid == spec_le_u64(data, 8)
    &&& r.size == spec_le_u64(data, 16)
    &&& r.nbytes == spec_le_u64(data, 24)
    &&& r.block_group == spec_le_u64(data, 32)
    &&& r.nlink == spec_le_u32(data, 40)
    &&& r.uid == spec_le_u32(data, 44)
    &&& r.gid == spec_le_u32(data, 48)
    &&& r.mode == spec_le_u32(data, 52)
    &&& r.rdev == spec_le_u64(data, 56)
    &&& r.flags == spec_le_u64(data, 64)
    &&& r.sequence == spec_le_u64(data, 72)
    &&& r.atime == spec_timespec_at(data, 112)
    &&& r.ctime == spec_timespec_at(data, 124)
    &&& r.mtime == spec_timespec_at(data, 136)
    &&& r.otime == spec_timespec_at(data, 148)
}

impl Inode {
    /// Parses an inode item (at least 160 bytes) for inode `ino`.
    pub fn from_bytes(ino: u64, data: &[u8]) -> (r: Result<Self, BtrfsError>)
        ensures
            r is Ok <==> data@.len() >= 160,
            r is Ok ==> inode_parsed(ino, data@, r->Ok_0),
            r is Err ==> r->Err_0 is Corrupt,
    {
        let n: usize = data.len();
        if n < 160 {
            return Err(BtrfsError::Corrupt("inode item too small".to_owned()));
        }
        Ok(Inode {
            ino,
            generation: le_u64(data, 0),
            transid: le_u64(data, 8),
            size: le_u64(data, 16),
            nbytes: le_u64(data, 24),
            block_group: le_u64(data, 32),
            nlink: le_u32(data, 40),
            uid: le_u32(data, 44),
            gid: le_u32(data, 48),
            mode: le_u32(data, 52),
            rdev: le_u64(data, 56),
            flags: le_u64(data, 64),
            sequence: le_u64(data, 72),
            atime: timespec_at(data, 112),
            ctime: timespec_at(data, 124),
            mtime: timespec_at(data, 136),
            otime: timespec_at(data, 148),
        })
    }

    /// The inode's type, from its mode bits.
    pub fn inode_type(&self) -> (r: InodeType)
        ensures
            r == spec_from_mode(self.mode),
    {
        InodeType::from_mode(self.mode)
    }

    /// True iff this inode is a directory.
    pub fn is_dir(&self) -> (r: bool)
        ensures
            r == (self.mode & 0o170000 == 0o040000),
    {
        (self.mode & 0o170000) == 0o040000
    }

    /// True iff this inode is a regular file.
    pub fn is_file(&self) -> (r: bool)
        ensures
            r == (self.mode & 0o170000 == 0o100000),
    {
        (self.mode & 0o170000) == 0o100000
    }

    /// True iff this inode is a symbolic link.
    pub fn is_symlink(&self) -> (r: bool)
        ensures
            r == (self.mode & 0o170000 == 0o120000),
    {
        (self.mode & 0o170000) == 0o120000
    }

    /// The permission bits of the mode.
    pub fn permissions(&self) -> (r: u32)
        ensures
            r == self.mode & 0o7777,
    {
        self.mode & 0o7777
    }
}

/// A directory entry, as embedded in a `DIR_ITEM` or `DIR_INDEX`
/// body: a 17-byte location key, transid, data and name lengths, a
/// type byte, and the name.
#[derive(Debug, Clone)]
pub struct DirEntry {
    /// The location key's object id: the child inode number, or the
    /// child tree id for a subvolume entry.
    pub ino: u64,
    /// The location key's offset field.
    pub child_tree: u64,
    /// The location key's type byte; `ROOT_ITEM` marks a subvolume.
    pub location_type: u8,
    /// The entry's type.
    pub entry_type: InodeType,
    /// The entry's name, decoded as UTF-8 (lossily).
    pub name: String,
    /// The entry's name, byte for byte as stored.
    pub name_bytes: Vec<u8>,
}

/// The length in bytes of the packed entry starting at `off`: the
/// 30-byte fixed part, the name, and the attached data.
pub open spec fn spec_dir_entry_len(data: Seq<u8>, off: int) -> int {
    30 + spec_le_u16(data, off + 27) + spec_le_u16(data, off + 25)
}

/// Holds iff `e` carries the packed directory entry serialized at
/// byte offset `off`.
pub open spec fn dir_entry_parsed(data: Seq<u8>, off: int, e: DirEntry) -> bool {
    &&& e.ino == spec_le_u64(data, off)
    &&& e.location_type == data[off + 8]
    &&& e.child_tree == spec_le_u64(data, off + 9)
    &&& e.entry_type == spec_from_dir_type(data[off + 29])
    &&& e.name_bytes@ == data.subrange(off + 30, off + 30 + spec_le_u16(data, off + 27))
    &&& e.name@ == utf8_lossy_of(e.name_bytes@)
}

/// Parses the packed directory entry at byte offset `off`.
fn dir_entry_at(data: &[u8], off: usize) -> (r: Result<DirEntry, BtrfsError>)
    requires
        off + 30 <= data@.len(),
    ensures
        r is Ok <==> off + 30 + spec_le_u16(data@, off as int + 27) <= data@.len(),
        r is Ok ==> dir_entry_parsed(data@, off as int, r->Ok_0),
        r is Err ==> r->Err_0 is Corrupt,
{
    let n: usize = data.len();
    let ino = le_u64(data, off);
    let location_type = data[off + 8];
    let child_tree = le_u64(data, off + 9);
    let name_len = le_u16(data, off + 27);
    let entry_type = InodeType::from_dir_type(data[off + 29]);
    if name_len as usize > n - (off + 30) {
        return Err(BtrfsError::Corrupt("directory entry name truncated".to_owned()));
    }
    let name_bytes = copy_bytes(data, off + 30, name_len as usize);
    let name = utf8_lossy(name_bytes.as_slice());
    Ok(DirEntry { ino, child_tree, location_type, entry_type, name, name_bytes })
}

impl DirEntry {
    /// Parses the first packed directory entry of an item body.
    pub fn from_bytes(data: &[u8]) -> (r: Result<Self, BtrfsError>)
        ensures
            r is Ok <==> data@.len() >= 30 && 30 + spec_le_u16(data@, 27) <= data@.len(),
            r is Ok ==> dir_entry_parsed(data@, 0, r->Ok_0),
            r is Err ==> r->Err_0 is Corrupt,
    {
        let n: usize = data.len();
        if n < 30 {
            return Err(BtrfsError::Corrupt("directory item too small".to_owned()));
        }
        dir_entry_at(data, 0)
    }
}

/// The outcome of searching the packed entries of a `DIR_ITEM` body
/// from byte offset `off` for a byte-exact `name`: `Some(Some(p))` is
/// a match at offset `p`, `Some(None)` an exhausted walk with no
/// match, `None` a truncated entry (corrupt).
pub open spec fn find_name_at(data: Seq<u8>, off: int, name: Seq<u8>) -> Option<Option<int>>
    decreases data.len() - off,
{
    if off >= data.len() {
        Some(Option::<int>::None)
    } else if data.len() - off < 30 {
        Option::<Option<int>>::None
    } else {
        let nl = spec_le_u16(data, off + 27) as int;
        let dl = spec_le_u16(data, off + 25) as int;
        if off + 30 + nl > data.len() {
            Option::<Option<int>>::None
        } else if data.subrange(off + 30, off + 30 + nl) == name {
            Some(Some(off))
        } else if 30 + nl + dl > data.len() - off {
            Option::<Option<int>>::None
        } else {
            find_name_at(data, off + 30 + nl + dl, name)
        }
    }
}

/// The byte offsets of the packed entries of a `DIR_ITEM` body from
/// `off` on, or `None` on a truncated entry (corrupt).
pub open spec fn dir_entries_walk(data: Seq<u8>, off: int) -> Option<Seq<int>>
    decreases data.len() - off,
{
    if off >= data.len() {
        Some(Seq::<int>::empty())
    } else if data.len() - off < 30 {
        Option::<Seq<int>>::None
    } else {
        let nl = spec_le_u16(data, off + 27) as int;
        let dl = spec_le_u16(data, off + 25) as int;
        if off + 30 + nl > data.len() {
            Option::<Seq<int>>::None
        } else if 30 + nl + dl > data.len() - off {
            Option::<Seq<int>>::None
        } else {
            match dir_entries_walk(data, off + 30 + nl + dl) {
                Option::None => Option::<Seq<int>>::None,
                Option::Some(rest) => Some(seq![off] + rest),
            }
        }
    }
}

/// Parses every packed entry of a `DIR_ITEM` body (hash collisions
/// pack entries back to back) until the body is exhausted: exactly
/// the entries of the packed walk, in order; a truncated entry is
/// corrupt.
pub fn parse_dir_entries(data: &[u8]) -> (r: Result<Vec<DirEntry>, BtrfsError>)
    ensures
        r is Ok <==> dir_entries_walk(data@, 0) is Some,
        r is Ok ==> ({
            let w = dir_entries_walk(data@, 0)->0;
            &&& r->Ok_0@.len() == w.len()
            &&& forall|k: int|
                0 <= k < w.len() ==> dir_entry_parsed(data@, w[k], #[trigger] r->Ok_0@[k])
        }),
        r is Err ==> r->Err_0 is Corrupt,
{
    let n: usize = data.len();
    let mut out: Vec<DirEntry> = Vec::new();
    let mut off: usize = 0;
    let ghost mut offs: Seq<int> = Seq::<int>::empty();
    loop
        invariant
            n == data@.len(),
            off <= n,
            dir_entries_walk(data@, 0) is Some <==> dir_entries_walk(data@, off as int) is Some,
            dir_entries_walk(data@, 0) is Some ==> dir_entries_walk(data@, 0)->0 =~= offs
                + dir_entries_walk(data@, off as int)->0,
            out@.len() == offs.len(),
            forall|k: int|
                0 <= k < offs.len() ==> dir_entry_parsed(data@, offs[k], #[trigger] out@[k]),
        decreases n - off,
    {
        if off >= n {
            proof {
                assert(dir_entries_walk(data@, off as int) == Some(Seq::<int>::empty()));
                if dir_entries_walk(data@, 0) is Some {
                    assert(dir_entries_walk(data@, 0)->0 =~= offs);
                }
            }
            return Ok(out);
        }
        if n - off < 30 {
            return Err(BtrfsError::Corrupt("packed directory entry truncated".to_owned()));
        }
        let data_len = le_u16(data, off + 25);
        let name_len = le_u16(data, off + 27);
        let entry = match dir_entry_at(data, off) {
            Ok(e) => e,
            Err(e) => {
                return Err(e);
            },
        };
        let step: usize = 30 + name_len as usize + data_len as usize;
        if step > n - off {
            return Err(BtrfsError::Corrupt("packed directory entry overruns item".to_owned()));
        }
        proof {
            assert(dir_entries_walk(data@, off as int) == (match dir_entries_walk(
                data@,
                off as int + step as int,
            ) {
                Option::None => Option::<Seq<int>>::None,
                Option::Some(rest) => Some(seq![off as int] + rest),
            }));
            offs = offs + seq![off as int];
            if dir_entries_walk(data@, 0) is Some {
                assert(dir_entries_walk(data@, 0)->0 =~= offs + dir_entries_walk(
                    data@,
                    off as int + step as int,
                )->0);
            }
        }
        out.push(entry);
        off = off + step;
    }
}

/// Searches the packed entries of a `DIR_ITEM` body for the entry
/// whose name equals `name` byte for byte: `Some` exactly when the
/// walk holds a byte-exact match (the first one), `None` exactly when
/// the walk completes without one, corrupt on a truncated entry.
pub fn dir_item_find(data: &[u8], name: &[u8]) -> (r: Result<Option<DirEntry>, BtrfsError>)
    ensures
        r is Err <==> find_name_at(data@, 0, name@) is None,
        r is Ok ==> ({
            let w = find_name_at(data@, 0, name@)->0;
            &&& (r->Ok_0 is Some <==> w is Some)
            &&& (r->Ok_0 is Some ==> dir_entry_parsed(data@, w->0, r->Ok_0->0))
        }),
        r is Ok && r->Ok_0 is Some ==> r->Ok_0->0.name_bytes@ == name@,
        r is Err ==> r->Err_0 is Corrupt,
{
    let n: usize = data.len();
    let mut off: usize = 0;
    while off < n
        invariant
            n == data@.len(),
            off <= n,
            find_name_at(data@, 0, name@) == find_name_at(data@, off as int, name@),
        decreases n - off,
    {
        if n - off < 30 {
            return Err(BtrfsError::Corrupt("packed directory entry truncated".to_owned()));
        }
        let data_len = le_u16(data, off + 25);
        let name_len = le_u16(data, off + 27);
        if name_len as usize > n - (off + 30) {
            return Err(BtrfsError::Corrupt("directory entry name truncated".to_owned()));
        }
        let name_here = slice_subrange(data, off + 30, off + 30 + name_len as usize);
        if bytes_eq(name_here, name) {
            let entry = match dir_entry_at(data, off) {
                Ok(e) => e,
                Err(e) => {
                    return Err(e);
                },
            };
            proof {
                assert(entry.name_bytes@ == name@);
            }
            return Ok(Some(entry));
        }
        let step: usize = 30 + name_len as usize + data_len as usize;
        if step > n - off {
            return Err(BtrfsError::Corrupt("packed directory entry overruns item".to_owned()));
        }
        off = off + step;
    }
    Ok(None)
}

/// An inode reference: a name of the inode in a parent directory.
#[derive(Debug, Clone)]
pub struct InodeRef {
    /// The position of the entry in the parent directory.
    pub index: u64,
    /// Length of the name in bytes.
    pub name_len: u16,
    /// The name, decoded as UTF-8 (lossily).
    pub name: String,
}

/// Holds iff `e` carries the inode ref serialized at the start of
/// `data`.
pub open spec fn inode_ref_parsed(data: Seq<u8>, e: InodeRef) -> bool {
    &&& e.index == spec_le_u64(data, 0)
    &&& e.name_len == spec_le_u16(data, 8)
    &&& e.name@ == utf8_lossy_of(data.subrange(10, 10 + spec_le_u16(data, 8)))
}

impl InodeRef {
    /// Parses an inode ref: index, name length, name.
    pub fn from_bytes(data: &[u8]) -> (r: Result<Self, BtrfsError>)
        ensures
            r is Ok <==> data@.len() >= 10 && 10 + spec_le_u16(data@, 8) <= data@.len(),
            r is Ok ==> inode_ref_parsed(data@, r->Ok_0),
            r is Err ==> r->Err_0 is Corrupt,
    {
        let n: usize = data.len();
        if n < 10 {
            return Err(BtrfsError::Corrupt("inode ref too small".to_owned()));
        }
        let index = le_u64(data, 0);
        let name_len = le_u16(data, 8);
        if name_len as usize > n - 10 {
            return Err(BtrfsError::Corrupt("inode ref name truncated".to_owned()));
        }
        let name = utf8_lossy(slice_subrange(data, 10, 10 + name_len as usize));
        Ok(InodeRef { index, name_len, name })
    }
}

/// A file extent item: a 21-byte prefix, then either the inline
/// payload or the location of the on-disk extent.
#[derive(Debug, Clone)]
pub struct ExtentData {
    /// Generation.
    pub generation: u64,
    /// Decoded (uncompressed) size.
    pub ram_bytes: u64,
    /// Compression algorithm byte.
    pub compression: u8,
    /// Encryption byte.
    pub encryption: u8,
    /// Other encoding field.
    pub other_encoding: u16,
    /// Extent kind: 0 inline, 1 regular, 2 preallocated.
    pub extent_type: u8,
    /// The (possibly compressed) payload of an inline extent.
    pub inline_data: Option<Vec<u8>>,
    /// Logical address of the on-disk extent; 0 marks a hole.
    pub disk_bytenr: Option<u64>,
    /// Size of the on-disk (possibly compressed) extent.
    pub disk_num_bytes: Option<u64>,
    /// Offset into the decoded extent where this item's data begins.
    pub offset: Option<u64>,
    /// Number of file bytes this item covers.
    pub num_bytes: Option<u64>,
}

/// Holds iff `e` carries the file extent item serialized at the start
/// of `data`.
pub open spec fn extent_data_parsed(data: Seq<u8>, e: ExtentData) -> bool {
    &&& e.generation == spec_le_u64(data, 0)
    &&& e.ram_bytes == spec_le_u64(data, 8)
    &&& e.compression == data[16]
    &&& e.encryption == data[17]
    &&& e.other_encoding == spec_le_u16(data, 18)
    &&& e.extent_type == data[20]
    &&& (data[20] == 0 ==> {
        &&& e.inline_data is Some
        &&& e.inline_data->0@ == data.subrange(21, data.len() as int)
        &&& e.disk_bytenr is None
        &&& e.disk_num_bytes is None
        &&& e.offset is None
        &&& e.num_bytes is None
    })
    &&& (data[20] != 0 ==> {
        &&& e.inline_data is None
        &&& e.disk_bytenr == Some(spec_le_u64(data, 21))
        &&& e.disk_num_bytes == Some(spec_le_u64(data, 29))
        &&& e.offset == Some(spec_le_u64(data, 37))
        &&& e.num_bytes == Some(spec_le_u64(data, 45))
    })
}

impl ExtentData {
    /// Parses a file extent item: the 21-byte prefix, then the inline
    /// payload or the 32 bytes locating the on-disk extent.
    pub fn from_bytes(data: &[u8]) -> (r: Result<Self, BtrfsError>)
        ensures
            r is Ok <==> (data@.len() >= 21 && (data@[20] == 0 || data@.len() >= 53)),
            r is Ok ==> extent_data_parsed(data@, r->Ok_0),
            r is Err ==> r->Err_0 is Corrupt,
    {
        let n: usize = data.len();
        if n < 21 {
            return Err(BtrfsError::Corrupt("extent data too small".to_owned()));
        }
        let generation = le_u64(data, 0);
        let ram_bytes = le_u64(data, 8);
        let compression = data[16];
        let encryption = data[17];
        let other_encoding = le_u16(data, 18);
        let extent_type = data[20];
        if extent_type == 0 {
            let inline_data = copy_bytes(data, 21, n - 21);
            Ok(ExtentData {
                generation,
                ram_bytes,
                compression,
                encryption,
                other_encoding,
                extent_type,
                inline_data: Some(inline_data),
                disk_bytenr: None,
                disk_num_bytes: None,
                offset: None,
                num_bytes: None,
            })
        } else {
            if n < 53 {
                return Err(BtrfsError::Corrupt("regular extent data too small".to_owned()));
            }
            Ok(ExtentData {
                generation,
                ram_bytes,
                compression,
                encryption,
                other_encoding,
                extent_type,
                inline_data: None,
                disk_bytenr: Some(le_u64(data, 21)),
                disk_num_bytes: Some(le_u64(data, 29)),
                offset: Some(le_u64(data, 37)),
                num_bytes: Some(le_u64(data, 45)),
            })
        }
    }

    /// True iff the extent stores its data inline in the leaf.
    pub fn is_inline(&self) -> (r: bool)
        ensures
            r == (self.extent_type == 0),
    {
        self.extent_type == 0
    }

    /// True iff the extent is a hole: a regular extent whose on-disk
    /// address is zero.
    pub fn is_sparse(&self) -> (r: bool)
        ensures
            r == (self.extent_type == 1 && self.disk_bytenr == Some(0u64)),
    {
        self.extent_type == 1 && match self.disk_bytenr {
            Some(b) => b == 0,
            None => false,
        }
    }

    /// True iff the extent is a regular on-disk extent.
    pub fn is_regular(&self) -> (r: bool)
        ensures
            r == (self.extent_type == 1),
    {
        self.extent_type == 1
    }

    /// True iff the extent is preallocated and not yet written.
    pub fn is_prealloc(&self) -> (r: bool)
        ensures
            r == (self.extent_type == 2),
    {
        self.extent_type == 2
    }
}

} // verus!
