use btrfs_core::checksum::crc32c;
use btrfs_core::device::MemoryDevice;
use btrfs_core::error::BtrfsError;
use btrfs_core::fs::BtrfsFilesystem;
use btrfs_core::tree::{
    BtrfsKey, BtrfsTree, Item, KeyPtr, TreeNode, TreeType, ITEM_SIZE, KEY_PTR_SIZE, KEY_SIZE,
    NODE_HEADER_SIZE,
};

#[test]
fn test_tree_type_from_objectid() {
    assert_eq!(TreeType::from_objectid(1), TreeType::Root);
    assert_eq!(TreeType::from_objectid(2), TreeType::Extent);
    assert_eq!(TreeType::from_objectid(3), TreeType::Chunk);
    assert_eq!(TreeType::from_objectid(4), TreeType::Dev);
    assert_eq!(TreeType::from_objectid(5), TreeType::Fs);
    assert_eq!(TreeType::from_objectid(7), TreeType::Csum);
    assert_eq!(TreeType::from_objectid(8), TreeType::Quota);
    assert_eq!(TreeType::from_objectid(9), TreeType::Uuid);
    assert_eq!(TreeType::from_objectid(10), TreeType::FreeSpace);
    assert_eq!(TreeType::from_objectid(100), TreeType::Unknown(100));
    assert_eq!(TreeType::from_objectid(256), TreeType::Unknown(256));
}

#[test]
fn test_btrfs_key_new() {
    let key = BtrfsKey::new(256, 0x01, 0);
    let objectid = { key.objectid };
    let item_type = { key.item_type };
    let offset = { key.offset };
    assert_eq!(objectid, 256);
    assert_eq!(item_type, 0x01);
    assert_eq!(offset, 0);
}

#[test]
fn test_btrfs_key_min_max() {
    let min = BtrfsKey::min();
    let max = BtrfsKey::max();

    let min_objectid = { min.objectid };
    let min_item_type = { min.item_type };
    let min_offset = { min.offset };
    let max_objectid = { max.objectid };
    let max_item_type = { max.item_type };
    let max_offset = { max.offset };

    assert_eq!(min_objectid, 0);
    assert_eq!(min_item_type, 0);
    assert_eq!(min_offset, 0);

    assert_eq!(max_objectid, u64::MAX);
    assert_eq!(max_item_type, u8::MAX);
    assert_eq!(max_offset, u64::MAX);

    assert!(min < max);
}

#[test]
fn test_btrfs_key_ordering() {
    let key1 = BtrfsKey::new(100, 0x01, 0);
    let key2 = BtrfsKey::new(100, 0x01, 1);
    let key3 = BtrfsKey::new(100, 0x02, 0);
    let key4 = BtrfsKey::new(200, 0x01, 0);

    assert!(key1 < key2);
    assert!(key2 < key3);
    assert!(key3 < key4);
    assert!(key1 < key4);
}

#[test]
fn test_btrfs_key_from_bytes() {
    // Create a key: objectid=256, type=0x01, offset=4096
    let mut data = vec![0u8; KEY_SIZE];
    data[0..8].copy_from_slice(&256u64.to_le_bytes());
    data[8] = 0x01;
    data[9..17].copy_from_slice(&4096u64.to_le_bytes());

    let key = BtrfsKey::from_bytes(&data).unwrap();
    let objectid = { key.objectid };
    let item_type = { key.item_type };
    let offset = { key.offset };
    assert_eq!(objectid, 256);
    assert_eq!(item_type, 0x01);
    assert_eq!(offset, 4096);
}

#[test]
fn test_btrfs_key_from_bytes_too_small() {
    let data = vec![0u8; 10]; // Too small
    let result = BtrfsKey::from_bytes(&data);
    assert!(result.is_err());
}

#[test]
fn test_key_ptr_from_bytes() {
    let mut data = vec![0u8; KEY_PTR_SIZE];
    // Key
    data[0..8].copy_from_slice(&256u64.to_le_bytes());
    data[8] = 0x84; // ROOT_ITEM
    data[9..17].copy_from_slice(&0u64.to_le_bytes());
    // Block pointer
    data[17..25].copy_from_slice(&0x100000u64.to_le_bytes());
    // Generation
    data[25..33].copy_from_slice(&42u64.to_le_bytes());

    let ptr = KeyPtr::from_bytes(&data).unwrap();
    let key_objectid = { ptr.key.objectid };
    let key_item_type = { ptr.key.item_type };
    assert_eq!(key_objectid, 256);
    assert_eq!(key_item_type, 0x84);
    assert_eq!(ptr.blockptr, 0x100000);
    assert_eq!(ptr.generation, 42);
}

#[test]
fn test_key_ptr_from_bytes_too_small() {
    let data = vec![0u8; 20]; // Too small
    let result = KeyPtr::from_bytes(&data);
    assert!(result.is_err());
}

#[test]
fn test_item_from_bytes() {
    let mut data = vec![0u8; ITEM_SIZE];
    // Key
    data[0..8].copy_from_slice(&256u64.to_le_bytes());
    data[8] = 0x01; // INODE_ITEM
    data[9..17].copy_from_slice(&0u64.to_le_bytes());
    // Offset
    data[17..21].copy_from_slice(&100u32.to_le_bytes());
    // Size
    data[21..25].copy_from_slice(&160u32.to_le_bytes());

    let item = Item::from_bytes(&data).unwrap();
    let key_objectid = { item.key.objectid };
    let key_item_type = { item.key.item_type };
    assert_eq!(key_objectid, 256);
    assert_eq!(key_item_type, 0x01);
    assert_eq!(item.offset, 100);
    assert_eq!(item.size, 160);
}

#[test]
fn test_item_from_bytes_too_small() {
    let data = vec![0u8; 15]; // Too small
    let result = Item::from_bytes(&data);
    assert!(result.is_err());
}

#[test]
fn test_constants() {
    assert_eq!(NODE_HEADER_SIZE, 0x65);
    assert_eq!(KEY_PTR_SIZE, 0x21);
    assert_eq!(ITEM_SIZE, 0x19);
    assert_eq!(KEY_SIZE, 0x11);
}

// ---- helpers building an in-memory filesystem image ----

const FSID: [u8; 16] = [0xAB; 16];
const NODE_SIZE: usize = 4096;

fn build_leaf(bytenr: u64, owner: u64, items: &[((u64, u8, u64), Vec<u8>)]) -> Vec<u8> {
    let mut node = vec![0u8; NODE_SIZE];
    node[0x20..0x30].copy_from_slice(&FSID);
    node[0x30..0x38].copy_from_slice(&bytenr.to_le_bytes());
    node[0x50..0x58].copy_from_slice(&1u64.to_le_bytes());
    node[0x58..0x60].copy_from_slice(&owner.to_le_bytes());
    node[0x60..0x64].copy_from_slice(&(items.len() as u32).to_le_bytes());
    node[0x64] = 0;
    let mut data_end = NODE_SIZE;
    for (i, (key, data)) in items.iter().enumerate() {
        let hdr = 0x65 + i * 0x19;
        node[hdr..hdr + 8].copy_from_slice(&key.0.to_le_bytes());
        node[hdr + 8] = key.1;
        node[hdr + 9..hdr + 17].copy_from_slice(&key.2.to_le_bytes());
        data_end -= data.len();
        let rel = (data_end - 0x65) as u32;
        node[hdr + 17..hdr + 21].copy_from_slice(&rel.to_le_bytes());
        node[hdr + 21..hdr + 25].copy_from_slice(&(data.len() as u32).to_le_bytes());
        node[data_end..data_end + data.len()].copy_from_slice(data);
    }
    let csum = crc32c(&node[0x20..]);
    node[0..4].copy_from_slice(&csum.to_le_bytes());
    node
}

fn build_internal(bytenr: u64, owner: u64, level: u8, ptrs: &[((u64, u8, u64), u64)]) -> Vec<u8> {
    let mut node = vec![0u8; NODE_SIZE];
    node[0x20..0x30].copy_from_slice(&FSID);
    node[0x30..0x38].copy_from_slice(&bytenr.to_le_bytes());
    node[0x50..0x58].copy_from_slice(&1u64.to_le_bytes());
    node[0x58..0x60].copy_from_slice(&owner.to_le_bytes());
    node[0x60..0x64].copy_from_slice(&(ptrs.len() as u32).to_le_bytes());
    node[0x64] = level;
    for (i, (key, blockptr)) in ptrs.iter().enumerate() {
        let hdr = 0x65 + i * 0x21;
        node[hdr..hdr + 8].copy_from_slice(&key.0.to_le_bytes());
        node[hdr + 8] = key.1;
        node[hdr + 9..hdr + 17].copy_from_slice(&key.2.to_le_bytes());
        node[hdr + 17..hdr + 25].copy_from_slice(&blockptr.to_le_bytes());
        node[hdr + 25..hdr + 33].copy_from_slice(&1u64.to_le_bytes());
    }
    let csum = crc32c(&node[0x20..]);
    node[0..4].copy_from_slice(&csum.to_le_bytes());
    node
}

fn build_superblock(root: u64, root_level: u8, chunk_root: u64, chunk_root_level: u8) -> Vec<u8> {
    let mut sb = vec![0u8; 0x1000];
    sb[0x20..0x30].copy_from_slice(&FSID);
    sb[0x30..0x38].copy_from_slice(&0x10000u64.to_le_bytes());
    sb[0x40..0x48].copy_from_slice(b"_BHRfS_M");
    sb[0x48..0x50].copy_from_slice(&100u64.to_le_bytes()); // generation
    sb[0x50..0x58].copy_from_slice(&root.to_le_bytes());
    sb[0x58..0x60].copy_from_slice(&chunk_root.to_le_bytes());
    sb[0x70..0x78].copy_from_slice(&0x1000000u64.to_le_bytes()); // total
    sb[0x78..0x80].copy_from_slice(&0x100000u64.to_le_bytes()); // used
    sb[0x80..0x88].copy_from_slice(&5u64.to_le_bytes()); // root_dir_objectid
    sb[0x88..0x90].copy_from_slice(&1u64.to_le_bytes()); // num_devices
    sb[0x90..0x94].copy_from_slice(&4096u32.to_le_bytes()); // sector
    sb[0x94..0x98].copy_from_slice(&(NODE_SIZE as u32).to_le_bytes()); // node size
    sb[0xC6] = root_level;
    sb[0xC7] = chunk_root_level;

    // One bootstrap chunk: logical 0 maps to physical 0 on device 1,
    // covering the whole 16 MiB image (identity mapping).
    let mut sca: Vec<u8> = Vec::new();
    sca.extend_from_slice(&0x100u64.to_le_bytes());
    sca.push(0xE4);
    sca.extend_from_slice(&0u64.to_le_bytes()); // chunk logical = 0
    sca.extend_from_slice(&0x1000000u64.to_le_bytes()); // size
    sca.extend_from_slice(&3u64.to_le_bytes()); // owner
    sca.extend_from_slice(&0x10000u64.to_le_bytes()); // stripe_len
    sca.extend_from_slice(&2u64.to_le_bytes()); // flags: SYSTEM
    sca.extend_from_slice(&4096u32.to_le_bytes()); // io_align
    sca.extend_from_slice(&4096u32.to_le_bytes()); // io_width
    sca.extend_from_slice(&4096u32.to_le_bytes()); // sector_size
    sca.extend_from_slice(&1u16.to_le_bytes()); // num_stripes
    sca.extend_from_slice(&0u16.to_le_bytes()); // sub_stripes
    sca.extend_from_slice(&1u64.to_le_bytes()); // devid
    sca.extend_from_slice(&0u64.to_le_bytes()); // physical offset 0
    sca.extend_from_slice(&[0xCD; 16]); // device uuid

    sb[0xA0..0xA4].copy_from_slice(&(sca.len() as u32).to_le_bytes());
    sb[0x32B..0x32B + sca.len()].copy_from_slice(&sca);

    let csum = crc32c(&sb[0x20..0x1000]);
    sb[0..4].copy_from_slice(&csum.to_le_bytes());
    sb
}

fn build_device(nodes: &[(u64, Vec<u8>)], root: u64, root_level: u8) -> MemoryDevice {
    // An empty chunk-tree leaf keeps the chunk-tree walk at open happy.
    let chunk_root: u64 = 0x14000;
    let mut image = vec![0u8; 0x40000];
    let sb = build_superblock(root, root_level, chunk_root, 0);
    image[0x10000..0x11000].copy_from_slice(&sb);
    let chunk_leaf = build_leaf(chunk_root, 3, &[]);
    image[chunk_root as usize..chunk_root as usize + NODE_SIZE].copy_from_slice(&chunk_leaf);
    for (addr, node) in nodes {
        let a = *addr as usize;
        image[a..a + node.len()].copy_from_slice(node);
    }
    MemoryDevice::new(image, true)
}

#[test]
fn test_leaf_range_scan() {
    // A leaf with keys (1,1,0), (1,1,5), (2,1,0): the range
    // [(1,1,0), (1,1,10)] holds exactly the first two, in order.
    let leaf_addr: u64 = 0x15000;
    let leaf = build_leaf(
        leaf_addr,
        1,
        &[
            ((1, 1, 0), vec![0xA1]),
            ((1, 1, 5), vec![0xA2]),
            ((2, 1, 0), vec![0xA3]),
        ],
    );
    let dev = build_device(&[(leaf_addr, leaf)], leaf_addr, 0);
    let fs = BtrfsFilesystem::open(dev, true).unwrap();
    let tree = BtrfsTree::new(&fs, leaf_addr, 0);

    let min = BtrfsKey::new(1, 1, 0);
    let max = BtrfsKey::new(1, 1, 10);
    let results = tree.search_range(&min, &max).unwrap();
    assert_eq!(results.len(), 2);
    assert_eq!({ results[0].0.key.offset }, 0);
    assert_eq!({ results[1].0.key.offset }, 5);
    assert_eq!(results[0].1, vec![0xA1]);
    assert_eq!(results[1].1, vec![0xA2]);

    // Point lookups find exactly the stored keys.
    let hit = tree.search(&BtrfsKey::new(1, 1, 5)).unwrap().unwrap();
    assert_eq!(hit.1, vec![0xA2]);
    assert!(tree.search(&BtrfsKey::new(1, 1, 4)).unwrap().is_none());
}

#[test]
fn test_multi_level_iteration_sorted() {
    // Two leaves under an internal root; iteration yields every key
    // in strictly increasing order.
    let leaf_a: u64 = 0x15000;
    let leaf_b: u64 = 0x16000;
    let root: u64 = 0x17000;
    let la = build_leaf(
        leaf_a,
        1,
        &[((10, 1, 0), vec![1]), ((10, 1, 7), vec![2])],
    );
    let lb = build_leaf(
        leaf_b,
        1,
        &[((11, 1, 0), vec![3]), ((12, 1, 0), vec![4])],
    );
    let rn = build_internal(root, 1, 1, &[((10, 1, 0), leaf_a), ((11, 1, 0), leaf_b)]);
    let dev = build_device(&[(leaf_a, la), (leaf_b, lb), (root, rn)], root, 1);
    let fs = BtrfsFilesystem::open(dev, true).unwrap();
    let tree = BtrfsTree::new(&fs, root, 1);

    let mut it = tree.iter();
    assert_eq!(it.remaining(), 4);
    let mut keys: Vec<(u64, u8, u64)> = Vec::new();
    while let Some(next) = it.next() {
        let (item, _data) = next.unwrap();
        keys.push(({ item.key.objectid }, { item.key.item_type }, {
            item.key.offset
        }));
    }
    assert_eq!(keys, vec![(10, 1, 0), (10, 1, 7), (11, 1, 0), (12, 1, 0)]);
    for w in keys.windows(2) {
        assert!(w[0] < w[1]);
    }

    // Range completeness across leaves: exactly the keys within the
    // bounds come back, in order.
    let results = tree
        .search_range(&BtrfsKey::new(10, 1, 7), &BtrfsKey::new(11, 1, 0))
        .unwrap();
    assert_eq!(results.len(), 2);
    assert_eq!({ results[0].0.key.objectid }, 10);
    assert_eq!({ results[1].0.key.objectid }, 11);

    // A point search through the internal level.
    let hit = tree.search(&BtrfsKey::new(12, 1, 0)).unwrap().unwrap();
    assert_eq!(hit.1, vec![4]);
}

#[test]
fn test_checksum_gate_bit_flips() {
    // Flipping any bit in the checksummed range of a valid node makes
    // parsing fail with a checksum mismatch.
    let leaf = build_leaf(0x15000, 1, &[((1, 1, 0), vec![0xA1])]);
    assert!(TreeNode::parse(leaf.clone()).is_ok());
    for byte in 0x20..NODE_SIZE {
        let bit = byte % 8;
        let mut corrupted = leaf.clone();
        corrupted[byte] ^= 1u8 << bit;
        match TreeNode::parse(corrupted) {
            Err(BtrfsError::ChecksumMismatch { .. }) => (),
            other => panic!(
                "bit {} of byte {:#x}: expected ChecksumMismatch, got {:?}",
                bit,
                byte,
                other.map(|_| ())
            ),
        }
    }
}

#[test]
fn test_leaf_rejects_unsorted_keys() {
    // A leaf whose keys are out of order is structurally corrupt.
    let mut node = vec![0u8; NODE_SIZE];
    node[0x20..0x30].copy_from_slice(&FSID);
    node[0x30..0x38].copy_from_slice(&0x15000u64.to_le_bytes());
    node[0x60..0x64].copy_from_slice(&2u32.to_le_bytes());
    node[0x64] = 0;
    // First key (2,1,0), second key (1,1,0): out of order.
    let hdr0 = 0x65;
    node[hdr0..hdr0 + 8].copy_from_slice(&2u64.to_le_bytes());
    node[hdr0 + 8] = 1;
    let hdr1 = 0x65 + 0x19;
    node[hdr1..hdr1 + 8].copy_from_slice(&1u64.to_le_bytes());
    node[hdr1 + 8] = 1;
    let csum = crc32c(&node[0x20..]);
    node[0..4].copy_from_slice(&csum.to_le_bytes());

    let parsed = TreeNode::parse(node).unwrap();
    match parsed.items() {
        Err(BtrfsError::Corrupt(_)) => (),
        other => panic!("expected Corrupt, got {:?}", other.map(|_| ())),
    }
}

#[test]
fn test_open_extends_mapping_from_chunk_tree() {
    // A chunk known only to the chunk tree, not the bootstrap array,
    // is picked up while opening.
    let chunk_leaf_addr: u64 = 0x14000;
    let mut item = Vec::new();
    item.extend_from_slice(&0x100000u64.to_le_bytes()); // size
    item.extend_from_slice(&2u64.to_le_bytes()); // owner
    item.extend_from_slice(&0x10000u64.to_le_bytes()); // stripe_len
    item.extend_from_slice(&1u64.to_le_bytes()); // flags: DATA
    item.extend_from_slice(&4096u32.to_le_bytes());
    item.extend_from_slice(&4096u32.to_le_bytes());
    item.extend_from_slice(&4096u32.to_le_bytes());
    item.extend_from_slice(&1u16.to_le_bytes()); // num_stripes
    item.extend_from_slice(&0u16.to_le_bytes()); // sub_stripes
    item.extend_from_slice(&1u64.to_le_bytes()); // devid
    item.extend_from_slice(&0x777000u64.to_le_bytes()); // physical
    item.extend_from_slice(&[0xCD; 16]);
    let chunk_leaf = build_leaf(chunk_leaf_addr, 3, &[((0x100, 0xE4, 0x2000000), item)]);

    let leaf_addr: u64 = 0x15000;
    let leaf = build_leaf(leaf_addr, 1, &[((1, 1, 0), vec![0xA1])]);
    let mut image = vec![0u8; 0x40000];
    let sb = build_superblock(leaf_addr, 0, chunk_leaf_addr, 0);
    image[0x10000..0x11000].copy_from_slice(&sb);
    image[chunk_leaf_addr as usize..chunk_leaf_addr as usize + NODE_SIZE]
        .copy_from_slice(&chunk_leaf);
    image[leaf_addr as usize..leaf_addr as usize + NODE_SIZE].copy_from_slice(&leaf);
    let fs = BtrfsFilesystem::open(MemoryDevice::new(image, true), true).unwrap();

    assert_eq!(fs.logical_to_physical(0x2000040).unwrap(), vec![(1, 0x777040)]);
}

#[test]
fn test_iterator_yields_items_before_failure() {
    // An internal root over one good leaf and one unreadable child:
    // iteration yields the good leaf's items, then one Err element,
    // then nothing.
    let leaf_a: u64 = 0x15000;
    let bad: u64 = 0x16000;
    let root: u64 = 0x17000;
    let la = build_leaf(leaf_a, 1, &[((10, 1, 0), vec![1]), ((10, 1, 7), vec![2])]);
    let rn = build_internal(root, 1, 1, &[((10, 1, 0), leaf_a), ((11, 1, 0), bad)]);
    // Nothing valid is stored at `bad`: its checksum cannot match.
    let dev = build_device(&[(leaf_a, la), (root, rn)], root, 1);
    let fs = BtrfsFilesystem::open(dev, true).unwrap();
    let tree = BtrfsTree::new(&fs, root, 1);

    let mut it = tree.iter();
    let first = it.next().unwrap().unwrap();
    assert_eq!({ first.0.key.offset }, 0);
    let second = it.next().unwrap().unwrap();
    assert_eq!({ second.0.key.offset }, 7);
    match it.next() {
        Some(Err(BtrfsError::ChecksumMismatch { .. })) => (),
        other => panic!("expected the failure element, got {:?}", other.map(|r| r.map(|_| ()))),
    }
    assert!(it.next().is_none());
}

#[test]
fn test_read_node_rejects_wrong_address() {
    // A node whose header carries another address than it was read
    // from is corrupt.
    let leaf = build_leaf(0x16000, 1, &[((1, 1, 0), vec![0xA1])]);
    // Store it at 0x15000 although its header says 0x16000.
    let dev = build_device(&[(0x15000, leaf)], 0x15000, 0);
    let fs = BtrfsFilesystem::open(dev, true).unwrap();
    let tree = BtrfsTree::new(&fs, 0x15000, 0);
    match tree.search(&BtrfsKey::new(1, 1, 0)) {
        Err(BtrfsError::Corrupt(_)) => (),
        other => panic!("expected Corrupt, got {:?}", other.map(|_| ())),
    }
}
