//! The chunk manager: the logical-to-physical address mapping.
//!
//! A chunk is a contiguous range of logical addresses backed by one or
//! more physical stripes. The manager is seeded from the superblock's
//! bootstrap sys-chunk-array and may be extended by walking the chunk
//! tree; it answers translation queries by the chunk with the greatest
//! logical start at or below the target address.

use vstd::prelude::*;
use vstd::slice::slice_subrange;

use crate::bytes::{copy_bytes, le_u16, le_u64};
use crate::bytes::{spec_le_u16, spec_le_u64};
use crate::chunk_type;
use crate::error::BtrfsError;
use crate::item_type;
use crate::superblock::Superblock;
use crate::tree::key_at;

verus! {

/// Size of a chunk item's fixed header on the wire.
pub const CHUNK_ITEM_HEADER_SIZE: usize = 0x30;

/// Size of one stripe record on the wire.
pub const CHUNK_STRIPE_SIZE: usize = 0x20;

/// One physical segment of a chunk on one device.
#[derive(Debug, Clone)]
pub struct Stripe {
    /// Device id.
    pub devid: u64,
    /// Offset of the segment on that device.
    pub offset: u64,
    /// Device UUID (16 bytes).
    pub dev_uuid: Vec<u8>,
}

/// A chunk: a range of logical addresses and the stripes backing it.
#[derive(Debug, Clone)]
pub struct ChunkMapping {
    /// First logical address of the chunk.
    pub logical: u64,
    /// Size of the chunk in bytes.
    pub size: u64,
    /// Stripe length used by striped profiles.
    pub stripe_len: u64,
    /// Content class and RAID profile bits.
    pub type_flags: u64,
    /// Number of stripes.
    pub num_stripes: u16,
    /// Mirrors per stripe group, for RAID10.
    pub sub_stripes: u16,
    /// The stripes, in on-disk order.
    pub stripes: Vec<Stripe>,
}

/// A mapping is well-formed when it carries as many stripes as its
/// count says and each device UUID has 16 bytes.
pub open spec fn mapping_wf(c: ChunkMapping) -> bool {
    &&& c.stripes@.len() == c.num_stripes
    &&& forall|i: int| 0 <= i < c.stripes@.len() ==> (#[trigger] c.stripes@[i]).dev_uuid@.len() == 16
}

/// Whether `addr` lies inside the chunk's logical range.
pub open spec fn chunk_contains(c: ChunkMapping, addr: u64) -> bool {
    c.logical <= addr && addr - c.logical < c.size
}

/// The RAID profile queries, in the precedence the translator uses.
pub open spec fn is_raid56(c: ChunkMapping) -> bool {
    c.type_flags & (chunk_type::RAID5 | chunk_type::RAID6) != 0
}

pub open spec fn is_raid0(c: ChunkMapping) -> bool {
    !is_raid56(c) && c.type_flags & chunk_type::RAID0 != 0
}

pub open spec fn is_raid10(c: ChunkMapping) -> bool {
    !is_raid56(c) && !is_raid0(c) && c.type_flags & chunk_type::RAID10 != 0
}

pub open spec fn is_mirrored(c: ChunkMapping) -> bool {
    &&& !is_raid56(c)
    &&& !is_raid0(c)
    &&& !is_raid10(c)
    &&& c.type_flags & (chunk_type::RAID1 | chunk_type::DUP | chunk_type::RAID1C3
        | chunk_type::RAID1C4) != 0
}

pub open spec fn is_single(c: ChunkMapping) -> bool {
    &&& !is_raid56(c)
    &&& !is_raid0(c)
    &&& !is_raid10(c)
    &&& !is_mirrored(c)
}

/// Holds iff `s` is the stripe record serialized at byte offset `off`.
pub open spec fn stripe_parsed(data: Seq<u8>, off: int, s: Stripe) -> bool {
    &&& s.devid == spec_le_u64(data, off)
    &&& s.offset == spec_le_u64(data, off + 8)
    &&& s.dev_uuid@ == data.subrange(off + 16, off + 32)
}

/// Holds iff `c` is the chunk item serialized at the start of `data`,
/// placed at logical address `logical`.
pub open spec fn chunk_parsed(data: Seq<u8>, logical: u64, c: ChunkMapping) -> bool {
    &&& c.logical == logical
    &&& c.size == spec_le_u64(data, 0)
    &&& c.stripe_len == spec_le_u64(data, 16)
    &&& c.type_flags == spec_le_u64(data, 24)
    &&& c.num_stripes == spec_le_u16(data, 44)
    &&& c.sub_stripes == spec_le_u16(data, 46)
    &&& c.stripes@.len() == c.num_stripes
    &&& forall|i: int|
        0 <= i < c.stripes@.len() ==> stripe_parsed(
            data,
            CHUNK_ITEM_HEADER_SIZE + i * CHUNK_STRIPE_SIZE,
            #[trigger] c.stripes@[i],
        )
}

/// The chunk item's total on-wire size: header plus stripes.
pub open spec fn spec_chunk_wire_size(num_stripes: int) -> int {
    CHUNK_ITEM_HEADER_SIZE + num_stripes * CHUNK_STRIPE_SIZE
}

/// Whether the chunk list is strictly ordered by logical start.
pub open spec fn chunks_sorted(s: Seq<ChunkMapping>) -> bool {
    forall|i: int, j: int|
        0 <= i < j < s.len() ==> (#[trigger] s[i]).logical < (#[trigger] s[j]).logical
}

/// The index of the chunk with the greatest logical start at or below
/// `addr`, or -1 if every chunk starts above it.
pub open spec fn floor_idx(s: Seq<ChunkMapping>, addr: u64) -> int
    decreases s.len(),
{
    if s.len() == 0 {
        -1
    } else if s.last().logical <= addr {
        s.len() - 1
    } else {
        floor_idx(s.drop_last(), addr)
    }
}

proof fn lemma_floor_idx_at(s: Seq<ChunkMapping>, addr: u64, i: int)
    requires
        0 <= i < s.len(),
        s[i].logical <= addr,
        forall|j: int| i < j < s.len() ==> (#[trigger] s[j]).logical > addr,
    ensures
        floor_idx(s, addr) == i,
    decreases s.len(),
{
    if i == s.len() - 1 {
    } else {
        assert(s.last().logical > addr);
        assert(s.drop_last()[i] == s[i]);
        lemma_floor_idx_at(s.drop_last(), addr, i);
    }
}

proof fn lemma_floor_idx_none(s: Seq<ChunkMapping>, addr: u64)
    requires
        forall|j: int| 0 <= j < s.len() ==> (#[trigger] s[j]).logical > addr,
    ensures
        floor_idx(s, addr) == -1,
    decreases s.len(),
{
    if s.len() > 0 {
        lemma_floor_idx_none(s.drop_last(), addr);
    }
}

/// Whether the chunks' logical ranges do not overlap: each ends at
/// or before the next begins. The format guarantees this of the
/// chunks a filesystem writes; the manager does not re-check it.
pub open spec fn chunks_nonoverlapping(s: Seq<ChunkMapping>) -> bool {
    forall|i: int|
        0 <= i < s.len() - 1 ==> (#[trigger] s[i]).logical + s[i].size <= s[i + 1].logical
}

proof fn lemma_nonoverlap_chain(s: Seq<ChunkMapping>, a: int, b: int)
    requires
        chunks_nonoverlapping(s),
        0 <= a < b < s.len(),
    ensures
        s[a].logical + s[a].size <= s[b].logical,
    decreases b - a,
{
    if a + 1 < b {
        lemma_nonoverlap_chain(s, a + 1, b);
    }
}

/// Under the on-disk guarantee that chunk ranges do not overlap, the
/// chunk the floor rule finds is the only one containing the address:
/// the translation contract then speaks of the unique containing
/// chunk.
pub proof fn lemma_containing_chunk_unique(s: Seq<ChunkMapping>, addr: u64, i: int)
    requires
        chunks_sorted(s),
        chunks_nonoverlapping(s),
        0 <= i < s.len(),
        chunk_contains(s[i], addr),
    ensures
        floor_idx(s, addr) == i,
{
    assert forall|j: int| i < j < s.len() implies (#[trigger] s[j]).logical > addr by {
        lemma_nonoverlap_chain(s, i, j);
    }
    lemma_floor_idx_at(s, addr, i);
}

/// The distance of `addr` into the chunk.
pub open spec fn chunk_delta(c: ChunkMapping, addr: u64) -> int {
    addr - c.logical
}

/// The physical position a RAID0 chunk maps `addr` to, as an
/// unbounded integer: the target stripe index and the offset on it.
pub open spec fn raid0_stripe_nr(c: ChunkMapping, addr: u64) -> int {
    chunk_delta(c, addr) / (c.stripe_len as int)
}

pub open spec fn raid0_index(c: ChunkMapping, addr: u64) -> int {
    raid0_stripe_nr(c, addr) % (c.num_stripes as int)
}

pub open spec fn raid0_phys(c: ChunkMapping, addr: u64) -> int {
    c.stripes@[raid0_index(c, addr)].offset + (raid0_stripe_nr(c, addr) / (
    c.num_stripes as int)) * (c.stripe_len as int) + chunk_delta(c, addr) % (c.stripe_len as int)
}

/// The number of RAID0 stripe groups a RAID10 chunk has.
pub open spec fn raid10_groups(c: ChunkMapping) -> int {
    (c.num_stripes as int) / (c.sub_stripes as int)
}

/// The stripe group that holds `addr` in a RAID10 chunk.
pub open spec fn raid10_group(c: ChunkMapping, addr: u64) -> int {
    raid0_stripe_nr(c, addr) % raid10_groups(c)
}

/// The offset of `addr` on each mirror of its RAID10 stripe group.
pub open spec fn raid10_base(c: ChunkMapping, addr: u64) -> int {
    (raid0_stripe_nr(c, addr) / raid10_groups(c)) * (c.stripe_len as int) + chunk_delta(c, addr)
        % (c.stripe_len as int)
}

/// The byte offsets of the packed `(key, chunk item)` pairs of a
/// sys-chunk-array, walking from `off`: each pair holds a 17-byte key
/// whose type byte must name a chunk item, then the chunk item of
/// `0x30 + 0x20 * num_stripes` bytes; a truncated trailing entry ends
/// the walk, and a wrong key type or truncated stripes are corrupt
/// (`None`).
pub open spec fn sys_walk(sca: Seq<u8>, off: int) -> Option<Seq<int>>
    decreases sca.len() - off,
{
    if off >= sca.len() || sca.len() - off < 17 {
        Some(Seq::<int>::empty())
    } else if sca[off + 8] != 0xE4 {
        Option::<Seq<int>>::None
    } else if sca.len() - (off + 17) < CHUNK_ITEM_HEADER_SIZE {
        Some(Seq::<int>::empty())
    } else {
        let ns = spec_le_u16(sca, off + 17 + 44) as int;
        if CHUNK_ITEM_HEADER_SIZE + ns * CHUNK_STRIPE_SIZE > sca.len() - (off + 17) {
            Option::<Seq<int>>::None
        } else {
            match sys_walk(sca, off + 17 + CHUNK_ITEM_HEADER_SIZE + ns * CHUNK_STRIPE_SIZE) {
                Option::None => Option::<Seq<int>>::None,
                Option::Some(rest) => Some(seq![off] + rest),
            }
        }
    }
}

/// Holds iff `c` is the chunk parsed from the sys-chunk-array pair at
/// byte offset `p`: the item that follows the 17-byte key, placed at
/// the key's offset field.
pub open spec fn pair_parsed(sca: Seq<u8>, p: int, c: ChunkMapping) -> bool {
    chunk_parsed(sca.subrange(p + 17, sca.len() as int), spec_le_u64(sca, p + 9), c)
}

/// Holds iff `chunks` corresponds to the pairs at offsets `w` of the
/// sys-chunk-array `sca`: every pair's logical start is held, and
/// every held chunk is the parse of some pair.
pub open spec fn seeded_entries(sca: Seq<u8>, w: Seq<int>, chunks: Seq<ChunkMapping>) -> bool {
    &&& (forall|j: int|
        0 <= j < w.len() ==> exists|i: int|
            0 <= i < chunks.len() && chunks[i].logical == spec_le_u64(
                sca,
                (#[trigger] w[j]) + 9,
            ))
    &&& (forall|i: int|
        0 <= i < chunks.len() ==> exists|j: int|
            0 <= j < w.len() && pair_parsed(sca, w[j], #[trigger] chunks[i]))
}

/// Holds iff `chunks` is seeded from the sys-chunk-array `sca`: the
/// walk of the packed pairs is clean, every pair's logical start is
/// held, and every held chunk is the parse of some pair.
pub open spec fn seeded_from(sca: Seq<u8>, chunks: Seq<ChunkMapping>) -> bool {
    &&& sys_walk(sca, 0) is Some
    &&& seeded_entries(sca, sys_walk(sca, 0)->0, chunks)
}

#[verifier::rlimit(100)]
#[verifier::spinoff_prover]
proof fn lemma_seed_step(
    sca: Seq<u8>,
    old_processed: Seq<int>,
    p: int,
    old_chunks: Seq<ChunkMapping>,
    new_chunks: Seq<ChunkMapping>,
    gchunk: ChunkMapping,
)
    requires
        pair_parsed(sca, p, gchunk),
        gchunk.logical == spec_le_u64(sca, p + 9),
        new_chunks.contains(gchunk),
        forall|c: ChunkMapping|
            old_chunks.contains(c) && c.logical != gchunk.logical ==> new_chunks.contains(c),
        (exists|pos: int|
            0 <= pos < old_chunks.len() && old_chunks[pos].logical == gchunk.logical
                && new_chunks == #[trigger] old_chunks.update(pos, gchunk)) || (exists|pos: int|
            0 <= pos <= old_chunks.len() && new_chunks == #[trigger] old_chunks.insert(
                pos,
                gchunk,
            )),
        seeded_entries(sca, old_processed, old_chunks),
    ensures
        seeded_entries(sca, old_processed + seq![p], new_chunks),
{
    let processed = old_processed + seq![p];
    assert(processed[processed.len() - 1] == p);
    assert(forall|j: int|
        0 <= j < old_processed.len() ==> #[trigger] processed[j] == old_processed[j]);
    assert forall|i: int|
        0 <= i < new_chunks.len() implies exists|j: int|
            0 <= j < processed.len() && pair_parsed(sca, processed[j], #[trigger] new_chunks[i]) by {
        if new_chunks[i] == gchunk {
            assert(pair_parsed(sca, processed[processed.len() - 1], gchunk));
        } else {
            if exists|pos: int|
                0 <= pos < old_chunks.len() && old_chunks[pos].logical == gchunk.logical
                    && new_chunks == #[trigger] old_chunks.update(pos, gchunk) {
                let pos = choose|pos: int|
                    0 <= pos < old_chunks.len() && old_chunks[pos].logical == gchunk.logical
                        && new_chunks == #[trigger] old_chunks.update(pos, gchunk);
                assert(new_chunks[i] == old_chunks[i]);
                let j = choose|j: int|
                    0 <= j < old_processed.len() && pair_parsed(
                        sca,
                        old_processed[j],
                        old_chunks[i],
                    );
                assert(pair_parsed(sca, processed[j], new_chunks[i]));
            } else {
                let pos = choose|pos: int|
                    0 <= pos <= old_chunks.len() && new_chunks == #[trigger] old_chunks.insert(
                        pos,
                        gchunk,
                    );
                let oi: int = if i < pos {
                    i
                } else {
                    i - 1
                };
                assert(0 <= oi < old_chunks.len() && new_chunks[i] == old_chunks[oi]);
                let j = choose|j: int|
                    0 <= j < old_processed.len() && pair_parsed(
                        sca,
                        old_processed[j],
                        old_chunks[oi],
                    );
                assert(pair_parsed(sca, processed[j], new_chunks[i]));
            }
        }
    }
    assert forall|j: int|
        0 <= j < processed.len() implies exists|i: int|
            0 <= i < new_chunks.len() && new_chunks[i].logical == spec_le_u64(
                sca,
                (#[trigger] processed[j]) + 9,
            ) by {
        if j == processed.len() - 1 {
            let i = choose|i: int| 0 <= i < new_chunks.len() && new_chunks[i] == gchunk;
            assert(new_chunks[i].logical == spec_le_u64(sca, processed[j] + 9));
        } else {
            let iw = choose|iw: int|
                0 <= iw < old_chunks.len() && old_chunks[iw].logical == spec_le_u64(
                    sca,
                    old_processed[j] + 9,
                );
            let c = old_chunks[iw];
            if c.logical == gchunk.logical {
                let i = choose|i: int| 0 <= i < new_chunks.len() && new_chunks[i] == gchunk;
                assert(new_chunks[i].logical == spec_le_u64(sca, processed[j] + 9));
            } else {
                assert(old_chunks.contains(c));
                assert(new_chunks.contains(c));
                let i = choose|i: int| 0 <= i < new_chunks.len() && new_chunks[i] == c;
                assert(new_chunks[i].logical == spec_le_u64(sca, processed[j] + 9));
            }
        }
    }
}

/// The chunk manager.
pub struct ChunkTree {
    /// The chunks, strictly ordered by logical start.
    pub chunks: Vec<ChunkMapping>,
}

impl ChunkTree {
    /// The manager is well-formed: chunks strictly ordered by logical
    /// start, each mapping well-formed.
    pub open spec fn wf(&self) -> bool {
        &&& chunks_sorted(self.chunks@)
        &&& forall|i: int| 0 <= i < self.chunks@.len() ==> mapping_wf(#[trigger] self.chunks@[i])
    }

    /// An empty manager.
    pub fn new() -> (r: Self)
        ensures
            r.wf(),
            r.chunks@.len() == 0,
    {
        ChunkTree { chunks: Vec::new() }
    }

    /// Parses a chunk item (header and stripes) from the start of
    /// `data`, for the chunk at logical address `logical`.
    pub fn parse_chunk_item(data: &[u8], logical: u64) -> (r: Result<ChunkMapping, BtrfsError>)
        ensures
            r is Ok <==> (data@.len() >= CHUNK_ITEM_HEADER_SIZE && spec_chunk_wire_size(
                spec_le_u16(data@, 44) as int,
            ) <= data@.len()),
            r is Ok ==> chunk_parsed(data@, logical, r->Ok_0) && mapping_wf(r->Ok_0),
            r is Err ==> r->Err_0 is Corrupt,
    {
        let n: usize = data.len();
        if n < CHUNK_ITEM_HEADER_SIZE {
            return Err(BtrfsError::Corrupt("chunk item too small".to_owned()));
        }
        let size = le_u64(data, 0);
        let stripe_len = le_u64(data, 16);
        let type_flags = le_u64(data, 24);
        let num_stripes = le_u16(data, 44);
        let sub_stripes = le_u16(data, 46);

        let mut stripes: Vec<Stripe> = Vec::new();
        let mut off: usize = CHUNK_ITEM_HEADER_SIZE;
        let mut i: usize = 0;
        while i < num_stripes as usize
            invariant
                n == data@.len(),
                n >= CHUNK_ITEM_HEADER_SIZE,
                num_stripes == spec_le_u16(data@, 44),
                i <= num_stripes,
                off == CHUNK_ITEM_HEADER_SIZE + i * CHUNK_STRIPE_SIZE,
                off <= n,
                stripes@.len() == i,
                forall|j: int|
                    0 <= j < i ==> stripe_parsed(
                        data@,
                        CHUNK_ITEM_HEADER_SIZE + j * CHUNK_STRIPE_SIZE,
                        #[trigger] stripes@[j],
                    ),
                forall|j: int|
                    0 <= j < i ==> (#[trigger] stripes@[j]).dev_uuid@.len() == 16,
            decreases num_stripes - i,
        {
            if n - off < CHUNK_STRIPE_SIZE {
                proof {
                    let c = CHUNK_STRIPE_SIZE as int;
                    let ii = i as int;
                    let ns = num_stripes as int;
                    assert((ii + 1) * c <= ns * c) by (nonlinear_arith)
                        requires
                            ii + 1 <= ns,
                            c > 0,
                    ;
                    assert((ii + 1) * c == ii * c + c) by (nonlinear_arith);
                    assert(spec_chunk_wire_size(spec_le_u16(data@, 44) as int) > n);
                }
                return Err(BtrfsError::Corrupt("chunk item stripe data truncated".to_owned()));
            }
            let devid = le_u64(data, off);
            let stripe_offset = le_u64(data, off + 8);
            let dev_uuid = copy_bytes(data, off + 16, 16);
            stripes.push(Stripe { devid, offset: stripe_offset, dev_uuid });
            off = off + CHUNK_STRIPE_SIZE;
            i = i + 1;
        }
        Ok(ChunkMapping { logical, size, stripe_len, type_flags, num_stripes, sub_stripes, stripes })
    }

    /// Inserts a chunk, keeping the list ordered by logical start; a
    /// chunk with the same start replaces the old one. Nothing else is
    /// added, removed, or changed: the new list is the old one with
    /// the chunk written over its same-start entry or inserted at its
    /// ordered position.
    pub fn add_chunk(&mut self, chunk: ChunkMapping)
        requires
            old(self).wf(),
            mapping_wf(chunk),
        ensures
            final(self).wf(),
            final(self).chunks@.contains(chunk),
            forall|c: ChunkMapping|
                old(self).chunks@.contains(c) && c.logical != chunk.logical
                    ==> final(self).chunks@.contains(c),
            (exists|pos: int|
                0 <= pos < old(self).chunks@.len() && old(self).chunks@[pos].logical
                    == chunk.logical && final(self).chunks@ == #[trigger] old(
                    self,
                ).chunks@.update(pos, chunk)) || (exists|pos: int|
                0 <= pos <= old(self).chunks@.len() && final(self).chunks@ == #[trigger] old(
                    self,
                ).chunks@.insert(pos, chunk)),
    {
        let n: usize = self.chunks.len();
        let mut pos: usize = 0;
        while pos < n && self.chunks[pos].logical < chunk.logical
            invariant
                self == old(self),
                n == self.chunks@.len(),
                pos <= n,
                forall|k: int| 0 <= k < pos ==> (#[trigger] self.chunks@[k]).logical < chunk.logical,
            decreases n - pos,
        {
            pos = pos + 1;
        }
        if pos < n && self.chunks[pos].logical == chunk.logical {
            self.chunks.set(pos, chunk);
            proof {
                assert(self.chunks@[pos as int] == chunk);
                assert forall|c: ChunkMapping|
                    old(self).chunks@.contains(c) && c.logical != chunk.logical
                    implies self.chunks@.contains(c) by {
                    let k = choose|k: int| 0 <= k < old(self).chunks@.len() && old(self).chunks@[k] == c;
                    assert(self.chunks@[k] == c);
                }
            }
        } else {
            self.chunks.insert(pos, chunk);
            proof {
                assert(self.chunks@[pos as int] == chunk);
                assert forall|c: ChunkMapping|
                    old(self).chunks@.contains(c) && c.logical != chunk.logical
                    implies self.chunks@.contains(c) by {
                    let k = choose|k: int| 0 <= k < old(self).chunks@.len() && old(self).chunks@[k] == c;
                    if k < pos {
                        assert(self.chunks@[k] == c);
                    } else {
                        assert(self.chunks@[k + 1] == c);
                    }
                }
            }
        }
    }

    /// Seeds a manager from the superblock's bootstrap sys-chunk-array.
    ///
    /// The array packs `(key, chunk item)` pairs; a key whose type is
    /// not a chunk item, or a chunk item whose stripes overrun the
    /// array, is corrupt, and a truncated trailing entry ends the
    /// walk. On success the manager holds one chunk per pair of the
    /// walk — every pair's logical start is present, and every held
    /// chunk is the one parsed from some pair.
    #[verifier::rlimit(100)]
    #[verifier::spinoff_prover]
    pub fn from_superblock(superblock: &Superblock) -> (r: Result<Self, BtrfsError>)
        requires
            superblock.wf(),
        ensures
            ({
                let sca = superblock.raw.sys_chunk_array@.subrange(
                    0,
                    superblock.raw.sys_chunk_array_size as int,
                );
                &&& (r is Ok <==> sys_walk(sca, 0) is Some)
                &&& (r is Ok ==> seeded_from(sca, r->Ok_0.chunks@))
            }),
            r is Ok ==> r->Ok_0.wf(),
            r is Err ==> r->Err_0 is Corrupt,
    {
        let sca: &[u8] = superblock.sys_chunk_array();
        let len: usize = sca.len();
        let mut tree = ChunkTree::new();
        let mut offset: usize = 0;
        let ghost mut processed: Seq<int> = Seq::<int>::empty();
        loop
            invariant
                sca@ == superblock.raw.sys_chunk_array@.subrange(
                    0,
                    superblock.raw.sys_chunk_array_size as int,
                ),
                len == sca@.len(),
                tree.wf(),
                offset <= len,
                sys_walk(sca@, 0) is Some <==> sys_walk(sca@, offset as int) is Some,
                sys_walk(sca@, 0) is Some ==> sys_walk(sca@, 0)->0 =~= processed + sys_walk(
                    sca@,
                    offset as int,
                )->0,
                seeded_entries(sca@, processed, tree.chunks@),
            decreases len - offset,
        {
            if offset >= len || len - offset < 17 {
                proof {
                    assert(sys_walk(sca@, offset as int) == Some(Seq::<int>::empty()));
                    if sys_walk(sca@, 0) is Some {
                        assert(sys_walk(sca@, 0)->0 =~= processed);
                        assert(sys_walk(sca@, 0)->0 == processed);
                        assert(seeded_from(sca@, tree.chunks@));
                    }
                }
                return Ok(tree);
            }
            let key = key_at(sca, offset);
            if key.item_type != item_type::CHUNK_ITEM {
                proof {
                    assert(sca@[offset as int + 8] != 0xE4);
                    assert(sys_walk(sca@, offset as int) is None);
                }
                return Err(
                    BtrfsError::Corrupt("sys-chunk-array entry is not a chunk item".to_owned()),
                );
            }
            let item_start = offset + 17;
            if len - item_start < CHUNK_ITEM_HEADER_SIZE {
                proof {
                    assert(sys_walk(sca@, offset as int) == Some(Seq::<int>::empty()));
                    if sys_walk(sca@, 0) is Some {
                        assert(sys_walk(sca@, 0)->0 =~= processed);
                        assert(sys_walk(sca@, 0)->0 == processed);
                        assert(seeded_from(sca@, tree.chunks@));
                    }
                }
                return Ok(tree);
            }
            let rest = slice_subrange(sca, item_start, len);
            proof {
                assert(rest@.subrange(44, 46) =~= sca@.subrange(
                    item_start as int + 44,
                    item_start as int + 46,
                ));
                assert(spec_le_u16(rest@, 44) == spec_le_u16(sca@, offset as int + 17 + 44));
            }
            let chunk = match Self::parse_chunk_item(rest, key.offset) {
                Ok(c) => c,
                Err(e) => {
                    proof {
                        let ns = spec_le_u16(sca@, offset as int + 17 + 44) as int;
                        assert(CHUNK_ITEM_HEADER_SIZE + ns * CHUNK_STRIPE_SIZE > sca@.len() - (
                        offset as int + 17));
                        assert(sys_walk(sca@, offset as int) is None);
                    }
                    return Err(e);
                },
            };
            let wire: usize = CHUNK_ITEM_HEADER_SIZE + chunk.num_stripes as usize
                * CHUNK_STRIPE_SIZE;
            proof {
                assert(CHUNK_ITEM_HEADER_SIZE + (chunk.num_stripes as int) * CHUNK_STRIPE_SIZE
                    <= rest@.len());
            }
            let ghost old_chunks = tree.chunks@;
            let ghost old_processed = processed;
            let ghost gchunk = chunk;
            tree.add_chunk(chunk);
            proof {
                let p = offset as int;
                let next = p + 17 + CHUNK_ITEM_HEADER_SIZE + (gchunk.num_stripes as int)
                    * CHUNK_STRIPE_SIZE;
                // The walk takes exactly this pair here.
                assert(sys_walk(sca@, p) == (match sys_walk(sca@, next) {
                    Option::None => Option::<Seq<int>>::None,
                    Option::Some(rest_w) => Some(seq![p] + rest_w),
                }));
                assert(gchunk.logical == spec_le_u64(sca@, p + 9));
                assert(pair_parsed(sca@, p, gchunk));
                lemma_seed_step(sca@, processed, p, old_chunks, tree.chunks@, gchunk);
                processed = old_processed + seq![p];
                if sys_walk(sca@, 0) is Some {
                    assert(sys_walk(sca@, 0)->0 =~= processed + sys_walk(sca@, next)->0);
                }
            }
            offset = item_start + wire;
        }
    }

    /// Translates a logical address to its physical copies: one
    /// `(devid, physical)` pair per valid copy, per the chunk's RAID
    /// profile.
    ///
    /// The chunk is the one with the greatest logical start at or
    /// below the address; an address inside no chunk is `NotFound`.
    /// RAID5/6 chunks are an unsupported feature. A chunk whose shape
    /// makes the translation meaningless (no stripes, a zero stripe
    /// length on a striped profile, a physical offset that overflows)
    /// is corrupt.
    pub fn logical_to_physical(&self, logical: u64) -> (r: Result<Vec<(u64, u64)>, BtrfsError>)
        requires
            self.wf(),
        ensures
            ({
                let fi = floor_idx(self.chunks@, logical);
                let no_chunk = fi < 0 || !chunk_contains(self.chunks@[fi], logical);
                &&& (no_chunk <==> (r is Err && r->Err_0 is NotFound))
                &&& (!no_chunk ==> ({
                    let c = self.chunks@[fi];
                    &&& (is_raid56(c) <==> r is Err && r->Err_0 is UnsupportedFeature)
                    &&& (is_single(c) ==> single_translation(c, logical, r))
                    &&& (is_mirrored(c) ==> mirror_translation(c, logical, r))
                    &&& (is_raid0(c) ==> raid0_translation(c, logical, r))
                    &&& (is_raid10(c) ==> raid10_translation(c, logical, r))
                }))
            }),
    {
        let n: usize = self.chunks.len();
        let mut i: usize = 0;
        let mut found: usize = 0;
        let mut hit: bool = false;
        while i < n && self.chunks[i].logical <= logical
            invariant
                self.wf(),
                n == self.chunks@.len(),
                i <= n,
                hit ==> i > 0 && found == i - 1,
                !hit ==> i == 0,
                forall|k: int| 0 <= k < i ==> (#[trigger] self.chunks@[k]).logical <= logical,
            decreases n - i,
        {
            found = i;
            hit = true;
            i = i + 1;
        }
        proof {
            if hit {
                assert forall|j: int|
                    found < j < self.chunks@.len() implies (#[trigger] self.chunks@[j]).logical
                    > logical by {
                    if j > i as int {
                        assert(self.chunks@[i as int].logical < self.chunks@[j].logical);
                    }
                }
                lemma_floor_idx_at(self.chunks@, logical, found as int);
            } else {
                assert forall|j: int|
                    0 <= j < self.chunks@.len() implies (#[trigger] self.chunks@[j]).logical
                    > logical by {
                    if j > 0 {
                        assert(self.chunks@[0].logical < self.chunks@[j].logical);
                    }
                }
                lemma_floor_idx_none(self.chunks@, logical);
            }
        }
        if !hit {
            return Err(BtrfsError::NotFound("no chunk mapping for logical address".to_owned()));
        }
        let c: &ChunkMapping = &self.chunks[found];
        if logical - c.logical >= c.size {
            return Err(BtrfsError::NotFound("logical address not in any chunk".to_owned()));
        }

        if c.type_flags & (chunk_type::RAID5 | chunk_type::RAID6) != 0 {
            return Err(
                BtrfsError::UnsupportedFeature("RAID5/6 chunks are not supported".to_owned()),
            );
        }
        if c.type_flags & chunk_type::RAID0 != 0 {
            return translate_raid0(c, logical);
        }
        if c.type_flags & chunk_type::RAID10 != 0 {
            return translate_raid10(c, logical);
        }
        if c.type_flags & (chunk_type::RAID1 | chunk_type::DUP | chunk_type::RAID1C3
            | chunk_type::RAID1C4) != 0 {
            return translate_mirror(c, logical);
        }
        translate_single(c, logical)
    }

    /// All chunks, ordered by logical start.
    pub fn chunks(&self) -> (r: &Vec<ChunkMapping>)
        ensures
            r == &self.chunks,
    {
        &self.chunks
    }
}


/// What a correct single-profile translation returns: one pair, on the
/// first stripe, at the stripe offset plus the distance into the chunk.
pub open spec fn single_translation(
    c: ChunkMapping,
    addr: u64,
    r: Result<Vec<(u64, u64)>, BtrfsError>,
) -> bool {
    &&& (r is Ok <==> c.stripes@.len() > 0 && c.stripes@[0].offset + chunk_delta(c, addr)
        <= u64::MAX)
    &&& (r is Ok ==> r->Ok_0@.len() == 1 && r->Ok_0@[0].0 == c.stripes@[0].devid && r->Ok_0@[0].1
        == c.stripes@[0].offset + chunk_delta(c, addr))
    &&& (r is Err ==> r->Err_0 is Corrupt)
}

/// What a correct mirrored translation returns: one pair per stripe,
/// every copy at the same distance into its stripe.
pub open spec fn mirror_translation(
    c: ChunkMapping,
    addr: u64,
    r: Result<Vec<(u64, u64)>, BtrfsError>,
) -> bool {
    &&& (r is Ok <==> c.stripes@.len() > 0 && (forall|j: int|
        0 <= j < c.stripes@.len() ==> (#[trigger] c.stripes@[j]).offset + chunk_delta(c, addr)
            <= u64::MAX))
    &&& (r is Ok ==> r->Ok_0@.len() == c.stripes@.len() && (forall|j: int|
        0 <= j < c.stripes@.len() ==> (#[trigger] r->Ok_0@[j]).0 == c.stripes@[j].devid
            && r->Ok_0@[j].1 == c.stripes@[j].offset + chunk_delta(c, addr)))
    &&& (r is Err ==> r->Err_0 is Corrupt)
}

/// What a correct RAID0 translation returns: one pair, on the stripe
/// the address stripes onto.
pub open spec fn raid0_translation(
    c: ChunkMapping,
    addr: u64,
    r: Result<Vec<(u64, u64)>, BtrfsError>,
) -> bool {
    &&& (r is Ok <==> c.stripe_len > 0 && c.num_stripes > 0 && raid0_phys(c, addr) <= u64::MAX)
    &&& (r is Ok ==> r->Ok_0@.len() == 1 && r->Ok_0@[0].0 == c.stripes@[raid0_index(c, addr)].devid
        && r->Ok_0@[0].1 == raid0_phys(c, addr))
    &&& (r is Err ==> r->Err_0 is Corrupt)
}

/// What a correct RAID10 translation returns: one pair per mirror of
/// the stripe group the address falls in.
pub open spec fn raid10_translation(
    c: ChunkMapping,
    addr: u64,
    r: Result<Vec<(u64, u64)>, BtrfsError>,
) -> bool {
    &&& (r is Ok ==> c.stripe_len > 0 && c.sub_stripes > 0 && raid10_groups(c) > 0
        && r->Ok_0@.len() == c.sub_stripes && (forall|j: int|
        0 <= j < c.sub_stripes ==> (#[trigger] r->Ok_0@[j]).0 == c.stripes@[raid10_group(c, addr)
            * (c.sub_stripes as int) + j].devid && r->Ok_0@[j].1 == c.stripes@[raid10_group(
            c,
            addr,
        ) * (c.sub_stripes as int) + j].offset + raid10_base(c, addr)))
    &&& ((c.stripe_len > 0 && c.sub_stripes > 0 && raid10_groups(c) > 0 && raid10_base(c, addr)
        <= u64::MAX && (forall|j: int|
        0 <= j < c.sub_stripes ==> (#[trigger] c.stripes@[raid10_group(c, addr) * (
        c.sub_stripes as int) + j]).offset + raid10_base(c, addr) <= u64::MAX)) ==> r is Ok)
    &&& (r is Err ==> r->Err_0 is Corrupt)
}

/// Translates inside a single-profile chunk.
fn translate_single(c: &ChunkMapping, addr: u64) -> (r: Result<Vec<(u64, u64)>, BtrfsError>)
    requires
        mapping_wf(*c),
        chunk_contains(*c, addr),
    ensures
        single_translation(*c, addr, r),
{
    let doff: u64 = addr - c.logical;
    if c.stripes.len() == 0 {
        return Err(BtrfsError::Corrupt("chunk with no stripes".to_owned()));
    }
    let s: &Stripe = &c.stripes[0];
    if doff > u64::MAX - s.offset {
        return Err(BtrfsError::Corrupt("stripe physical offset overflows".to_owned()));
    }
    let mut out: Vec<(u64, u64)> = Vec::new();
    out.push((s.devid, s.offset + doff));
    Ok(out)
}

/// Translates inside a mirrored chunk: every stripe is a full copy.
fn translate_mirror(c: &ChunkMapping, addr: u64) -> (r: Result<Vec<(u64, u64)>, BtrfsError>)
    requires
        mapping_wf(*c),
        chunk_contains(*c, addr),
    ensures
        mirror_translation(*c, addr, r),
{
    let doff: u64 = addr - c.logical;
    let m: usize = c.stripes.len();
    if m == 0 {
        return Err(BtrfsError::Corrupt("mirrored chunk with no stripes".to_owned()));
    }
    let mut out: Vec<(u64, u64)> = Vec::new();
    let mut j: usize = 0;
    while j < m
        invariant
            mapping_wf(*c),
            chunk_contains(*c, addr),
            doff == chunk_delta(*c, addr),
            m == c.stripes@.len(),
            j <= m,
            out@.len() == j,
            forall|k: int|
                0 <= k < j ==> (#[trigger] out@[k]).0 == c.stripes@[k].devid && out@[k].1
                    == c.stripes@[k].offset + chunk_delta(*c, addr),
        decreases m - j,
    {
        let s: &Stripe = &c.stripes[j];
        if doff > u64::MAX - s.offset {
            return Err(BtrfsError::Corrupt("stripe physical offset overflows".to_owned()));
        }
        out.push((s.devid, s.offset + doff));
        j = j + 1;
    }
    proof {
        assert forall|k: int|
            0 <= k < c.stripes@.len() implies (#[trigger] c.stripes@[k]).offset + chunk_delta(
            *c,
            addr,
        ) <= u64::MAX by {
            assert(out@[k].1 == c.stripes@[k].offset + chunk_delta(*c, addr));
        }
    }
    Ok(out)
}

/// Translates inside a RAID0 chunk.
fn translate_raid0(c: &ChunkMapping, addr: u64) -> (r: Result<Vec<(u64, u64)>, BtrfsError>)
    requires
        mapping_wf(*c),
        chunk_contains(*c, addr),
    ensures
        raid0_translation(*c, addr, r),
{
    let doff: u64 = addr - c.logical;
    if c.stripe_len == 0 || c.num_stripes == 0 {
        return Err(BtrfsError::Corrupt("RAID0 chunk with no stripe geometry".to_owned()));
    }
    let ns: u64 = c.num_stripes as u64;
    let nr: u64 = doff / c.stripe_len;
    let soff: u64 = doff % c.stripe_len;
    let q: u64 = nr / ns;
    let idx: usize = (nr % ns) as usize;
    proof {
        assert((nr as int) % (ns as int) >= 0 && (nr as int) % (ns as int) < (ns as int)) by (nonlinear_arith)
            requires
                ns as int > 0,
                nr as int >= 0,
        ;
        assert(idx as int == raid0_index(*c, addr));
    }
    if q != 0 && c.stripe_len > u64::MAX / q {
        proof {
            let m = u64::MAX as int;
            let qq = q as int;
            let sl = c.stripe_len as int;
            assert(qq * sl > m) by (nonlinear_arith)
                requires
                    qq > 0,
                    sl > m / qq,
                    m >= 0,
            ;
        }
        return Err(BtrfsError::Corrupt("RAID0 physical offset overflows".to_owned()));
    }
    proof {
        let m = u64::MAX as int;
        let qq = q as int;
        let sl = c.stripe_len as int;
        if qq != 0 {
            assert(qq * sl <= m) by (nonlinear_arith)
                requires
                    qq > 0,
                    sl <= m / qq,
                    m >= 0,
            ;
        } else {
            assert(qq * sl == 0) by (nonlinear_arith)
                requires
                    qq == 0,
            ;
        }
    }
    let t: u64 = q * c.stripe_len;
    if soff > u64::MAX - t {
        return Err(BtrfsError::Corrupt("RAID0 physical offset overflows".to_owned()));
    }
    let t2: u64 = t + soff;
    let s: &Stripe = &c.stripes[idx];
    if s.offset > u64::MAX - t2 {
        return Err(BtrfsError::Corrupt("RAID0 physical offset overflows".to_owned()));
    }
    let mut out: Vec<(u64, u64)> = Vec::new();
    out.push((s.devid, s.offset + t2));
    Ok(out)
}

/// Translates inside a RAID10 chunk.
fn translate_raid10(c: &ChunkMapping, addr: u64) -> (r: Result<Vec<(u64, u64)>, BtrfsError>)
    requires
        mapping_wf(*c),
        chunk_contains(*c, addr),
    ensures
        raid10_translation(*c, addr, r),
{
    let doff: u64 = addr - c.logical;
    if c.stripe_len == 0 || c.sub_stripes == 0 {
        return Err(BtrfsError::Corrupt("RAID10 chunk with no stripe geometry".to_owned()));
    }
    let ss64: u64 = c.sub_stripes as u64;
    let groups: u64 = c.num_stripes as u64 / ss64;
    if groups == 0 {
        return Err(BtrfsError::Corrupt("RAID10 chunk with no stripe groups".to_owned()));
    }
    let nr: u64 = doff / c.stripe_len;
    let soff: u64 = doff % c.stripe_len;
    let q: u64 = nr / groups;
    let g: u64 = nr % groups;
    proof {
        assert((nr as int) % (groups as int) >= 0 && (nr as int) % (groups as int) < (groups as int)) by (nonlinear_arith)
            requires
                groups as int > 0,
                nr as int >= 0,
        ;
        assert(g as int == raid10_group(*c, addr));
    }
    if q != 0 && c.stripe_len > u64::MAX / q {
        proof {
            let m = u64::MAX as int;
            let qq = q as int;
            let sl = c.stripe_len as int;
            assert(qq * sl > m) by (nonlinear_arith)
                requires
                    qq > 0,
                    sl > m / qq,
                    m >= 0,
            ;
        }
        return Err(BtrfsError::Corrupt("RAID10 physical offset overflows".to_owned()));
    }
    proof {
        let m = u64::MAX as int;
        let qq = q as int;
        let sl = c.stripe_len as int;
        if qq != 0 {
            assert(qq * sl <= m) by (nonlinear_arith)
                requires
                    qq > 0,
                    sl <= m / qq,
                    m >= 0,
            ;
        } else {
            assert(qq * sl == 0) by (nonlinear_arith)
                requires
                    qq == 0,
            ;
        }
    }
    let t: u64 = q * c.stripe_len;
    if soff > u64::MAX - t {
        return Err(BtrfsError::Corrupt("RAID10 physical offset overflows".to_owned()));
    }
    let base: u64 = t + soff;
    proof {
        assert(base == raid10_base(*c, addr));
    }
    let ss: usize = c.sub_stripes as usize;
    proof {
        let gi = g as int;
        let ssi = c.sub_stripes as int;
        let gr = groups as int;
        let nsi = c.num_stripes as int;
        assert((gi + 1) * ssi <= gr * ssi) by (nonlinear_arith)
            requires
                gi + 1 <= gr,
                ssi >= 0,
        ;
        assert(gr * ssi <= nsi) by (nonlinear_arith)
            requires
                gr == nsi / ssi,
                ssi > 0,
                nsi >= 0,
        ;
        assert((gi + 1) * ssi == gi * ssi + ssi) by (nonlinear_arith);
        assert(gi * ssi + ssi <= nsi);
        assert(gi * ssi <= 0xFFFF);
    }
    let start: usize = g as usize * ss;
    let mut out: Vec<(u64, u64)> = Vec::new();
    let mut j: usize = 0;
    while j < ss
        invariant
            mapping_wf(*c),
            chunk_contains(*c, addr),
            ss == c.sub_stripes,
            ss > 0,
            start == raid10_group(*c, addr) * (c.sub_stripes as int),
            start + ss <= c.stripes@.len(),
            base == raid10_base(*c, addr),
            j <= ss,
            out@.len() == j,
            forall|k: int|
                0 <= k < j ==> (#[trigger] out@[k]).0 == c.stripes@[start + k].devid && out@[k].1
                    == c.stripes@[start + k].offset + raid10_base(*c, addr),
        decreases ss - j,
    {
        let s: &Stripe = &c.stripes[start + j];
        if base > u64::MAX - s.offset {
            return Err(BtrfsError::Corrupt("RAID10 physical offset overflows".to_owned()));
        }
        out.push((s.devid, s.offset + base));
        j = j + 1;
    }
    Ok(out)
}

} // verus!
