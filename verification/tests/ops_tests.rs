use btrfs_core::checksum::crc32c;
use btrfs_core::compress;
use btrfs_core::device::MemoryDevice;
use btrfs_core::error::BtrfsError;
use btrfs_core::fs::BtrfsFilesystem;
use btrfs_core::inode::InodeType;
use btrfs_core::ops::{
    btrfs_name_hash, get_inode_refs, lookup, parse_path_components, read_dir, read_file_data,
    read_file_extents, read_inode, resolve_path,
};
use btrfs_core::subvolume::{get_subvolume, list_subvolumes};

#[test]
fn test_btrfs_name_hash() {
    // Hash should be deterministic
    let hash1 = btrfs_name_hash("test.txt");
    let hash2 = btrfs_name_hash("test.txt");
    assert_eq!(hash1, hash2);

    // Different names should have different hashes (usually)
    let hash_a = btrfs_name_hash("file_a.txt");
    let hash_b = btrfs_name_hash("file_b.txt");
    assert_ne!(hash_a, hash_b);
}

#[test]
fn test_btrfs_name_hash_empty() {
    let hash = btrfs_name_hash("");
    assert_eq!(hash, 0); // CRC32c of empty data is 0
}

#[test]
fn test_btrfs_name_hash_special_chars() {
    let hash1 = btrfs_name_hash("file with spaces.txt");
    let hash2 = btrfs_name_hash("file-with-dashes.txt");
    assert_ne!(hash1, hash2);
}

#[test]
fn test_btrfs_name_hash_unicode() {
    let hash = btrfs_name_hash("файл.txt"); // Russian word for "file"
    assert_ne!(hash, 0);
}

#[test]
fn test_btrfs_name_hash_zero_extended() {
    // The upper 32 bits of the hash are always zero.
    for name in ["a", "some longer name", "файл.txt"] {
        assert!(btrfs_name_hash(name) <= u32::MAX as u64);
    }
}

#[test]
fn test_parse_path_components_unix() {
    let components = parse_path_components("/home/user/file.txt");
    assert_eq!(components, vec!["home", "user", "file.txt"]);
}

#[test]
fn test_parse_path_components_windows() {
    let components = parse_path_components("C:\\Users\\user\\file.txt");
    assert_eq!(components, vec!["C:", "Users", "user", "file.txt"]);
}

#[test]
fn test_parse_path_components_mixed() {
    let components = parse_path_components("/path/to\\mixed/separators");
    assert_eq!(components, vec!["path", "to", "mixed", "separators"]);
}

#[test]
fn test_parse_path_components_empty() {
    let components = parse_path_components("");
    assert!(components.is_empty());
}

#[test]
fn test_parse_path_components_root() {
    let components = parse_path_components("/");
    assert!(components.is_empty());
}

#[test]
fn test_parse_path_components_trailing_slash() {
    let components = parse_path_components("/path/to/dir/");
    assert_eq!(components, vec!["path", "to", "dir"]);
}

#[test]
fn test_parse_path_components_double_slash() {
    let components = parse_path_components("/path//to///dir");
    assert_eq!(components, vec!["path", "to", "dir"]);
}

#[test]
fn test_parse_path_components_single_name() {
    let components = parse_path_components("filename.txt");
    assert_eq!(components, vec!["filename.txt"]);
}

// ---- helpers building an in-memory filesystem image ----

const FSID: [u8; 16] = [0xAB; 16];
const NODE_SIZE: usize = 4096;

fn build_leaf(bytenr: u64, owner: u64, items: &[((u64, u8, u64), Vec<u8>)]) -> Vec<u8> {
    let mut items: Vec<((u64, u8, u64), Vec<u8>)> = items.to_vec();
    items.sort_by_key(|(k, _)| *k);
    let mut node = vec![0u8; NODE_SIZE];
    node[0x20..0x30].copy_from_slice(&FSID);
    node[0x30..0x38].copy_from_slice(&bytenr.to_le_bytes());
    node[0x50..0x58].copy_from_slice(&1u64.to_le_bytes());
    node[0x58..0x60].copy_from_slice(&owner.to_le_bytes());
    node[0x60..0x64].copy_from_slice(&(items.len() as u32).to_le_bytes());
    node[0x64] = 0;
    let mut data_end = NODE_SIZE;
    for (i, (key, data)) in items.iter().enumerate() {
        let hdr = 0x65 + i * 0x19;
        node[hdr..hdr + 8].copy_from_slice(&key.0.to_le_bytes());
        node[hdr + 8] = key.1;
        node[hdr + 9..hdr + 17].copy_from_slice(&key.2.to_le_bytes());
        data_end -= data.len();
        let rel = (data_end - 0x65) as u32;
        node[hdr + 17..hdr + 21].copy_from_slice(&rel.to_le_bytes());
        node[hdr + 21..hdr + 25].copy_from_slice(&(data.len() as u32).to_le_bytes());
        node[data_end..data_end + data.len()].copy_from_slice(data);
    }
    let csum = crc32c(&node[0x20..]);
    node[0..4].copy_from_slice(&csum.to_le_bytes());
    node
}

fn build_superblock(root: u64, root_level: u8, chunk_root: u64) -> Vec<u8> {
    let mut sb = vec![0u8; 0x1000];
    sb[0x20..0x30].copy_from_slice(&FSID);
    sb[0x30..0x38].copy_from_slice(&0x10000u64.to_le_bytes());
    sb[0x40..0x48].copy_from_slice(b"_BHRfS_M");
    sb[0x48..0x50].copy_from_slice(&100u64.to_le_bytes());
    sb[0x50..0x58].copy_from_slice(&root.to_le_bytes());
    sb[0x58..0x60].copy_from_slice(&chunk_root.to_le_bytes());
    sb[0x70..0x78].copy_from_slice(&0x1000000u64.to_le_bytes());
    sb[0x78..0x80].copy_from_slice(&0x100000u64.to_le_bytes());
    sb[0x80..0x88].copy_from_slice(&5u64.to_le_bytes());
    sb[0x88..0x90].copy_from_slice(&1u64.to_le_bytes());
    sb[0x90..0x94].copy_from_slice(&4096u32.to_le_bytes());
    sb[0x94..0x98].copy_from_slice(&(NODE_SIZE as u32).to_le_bytes());
    sb[0xC6] = root_level;
    sb[0xC7] = 0;
    sb[0x12B..0x12B + 4].copy_from_slice(b"demo");

    let mut sca: Vec<u8> = Vec::new();
    sca.extend_from_slice(&0x100u64.to_le_bytes());
    sca.push(0xE4);
    sca.extend_from_slice(&0u64.to_le_bytes());
    sca.extend_from_slice(&0x1000000u64.to_le_bytes());
    sca.extend_from_slice(&3u64.to_le_bytes());
    sca.extend_from_slice(&0x10000u64.to_le_bytes());
    sca.extend_from_slice(&2u64.to_le_bytes());
    sca.extend_from_slice(&4096u32.to_le_bytes());
    sca.extend_from_slice(&4096u32.to_le_bytes());
    sca.extend_from_slice(&4096u32.to_le_bytes());
    sca.extend_from_slice(&1u16.to_le_bytes());
    sca.extend_from_slice(&0u16.to_le_bytes());
    sca.extend_from_slice(&1u64.to_le_bytes());
    sca.extend_from_slice(&0u64.to_le_bytes());
    sca.extend_from_slice(&[0xCD; 16]);

    sb[0xA0..0xA4].copy_from_slice(&(sca.len() as u32).to_le_bytes());
    sb[0x32B..0x32B + sca.len()].copy_from_slice(&sca);

    let csum = crc32c(&sb[0x20..0x1000]);
    sb[0..4].copy_from_slice(&csum.to_le_bytes());
    sb
}

fn inode_item(mode: u32, size: u64) -> Vec<u8> {
    let mut d = vec![0u8; 160];
    d[16..24].copy_from_slice(&size.to_le_bytes());
    d[40..44].copy_from_slice(&1u32.to_le_bytes());
    d[52..56].copy_from_slice(&mode.to_le_bytes());
    d
}

fn dir_entry_bytes(loc: (u64, u8, u64), entry_type: u8, name: &[u8]) -> Vec<u8> {
    let mut d = Vec::new();
    d.extend_from_slice(&loc.0.to_le_bytes());
    d.push(loc.1);
    d.extend_from_slice(&loc.2.to_le_bytes());
    d.extend_from_slice(&1u64.to_le_bytes()); // transid
    d.extend_from_slice(&0u16.to_le_bytes()); // data_len
    d.extend_from_slice(&(name.len() as u16).to_le_bytes());
    d.push(entry_type);
    d.extend_from_slice(name);
    d
}

fn root_item_bytes(bytenr: u64, level: u8) -> Vec<u8> {
    let mut d = vec![0u8; 439];
    d[52..56].copy_from_slice(&0o40755u32.to_le_bytes()); // mini-inode mode
    d[160..168].copy_from_slice(&7u64.to_le_bytes()); // generation
    d[168..176].copy_from_slice(&256u64.to_le_bytes()); // root_dirid
    d[176..184].copy_from_slice(&bytenr.to_le_bytes());
    d[238] = level;
    d
}

fn inline_extent(payload: &[u8], compression: u8, ram_bytes: u64) -> Vec<u8> {
    let mut d = vec![0u8; 21];
    d[8..16].copy_from_slice(&ram_bytes.to_le_bytes());
    d[16] = compression;
    d[20] = 0;
    d.extend_from_slice(payload);
    d
}

fn regular_extent(
    disk_bytenr: u64,
    disk_num_bytes: u64,
    extent_offset: u64,
    num_bytes: u64,
    compression: u8,
    ram_bytes: u64,
) -> Vec<u8> {
    let mut d = vec![0u8; 53];
    d[8..16].copy_from_slice(&ram_bytes.to_le_bytes());
    d[16] = compression;
    d[20] = 1;
    d[21..29].copy_from_slice(&disk_bytenr.to_le_bytes());
    d[29..37].copy_from_slice(&disk_num_bytes.to_le_bytes());
    d[37..45].copy_from_slice(&extent_offset.to_le_bytes());
    d[45..53].copy_from_slice(&num_bytes.to_le_bytes());
    d
}

/// Builds a small filesystem: a root tree with the root item of the
/// default tree, a filesystem tree with a directory hierarchy and
/// three files, and the data extents they point at.
fn demo_fs() -> BtrfsFilesystem<MemoryDevice> {
    let chunk_root: u64 = 0x14000;
    let root_tree: u64 = 0x15000;
    let fs_leaf: u64 = 0x16000;
    let world_at: u64 = 0x18000;
    let zstd_at: u64 = 0x19000;

    let zstd_blob = compress::compress_zstd(b"0123456789", 3).unwrap();

    let h_docs = btrfs_name_hash("docs");
    let h_a = btrfs_name_hash("a.txt");
    let h_bb = btrfs_name_hash("bb");

    // Two packed entries under the hash bucket of "bb": a colliding
    // stranger first, then "bb" itself.
    let mut packed = dir_entry_bytes((999, 0x01, 0), 1, b"xx");
    packed.extend_from_slice(&dir_entry_bytes((260, 0x01, 0), 1, b"bb"));

    let fs_items: Vec<((u64, u8, u64), Vec<u8>)> = vec![
        ((256, 0x01, 0), inode_item(0o040755, 0)),
        ((256, 0x54, h_docs), dir_entry_bytes((257, 0x01, 0), 2, b"docs")),
        ((256, 0x54, h_bb), packed),
        ((256, 0x60, 1), dir_entry_bytes((257, 0x01, 0), 2, b"docs")),
        ((256, 0x60, 2), dir_entry_bytes((260, 0x01, 0), 1, b"bb")),
        ((257, 0x01, 0), inode_item(0o040755, 0)),
        ((257, 0x54, h_a), dir_entry_bytes((258, 0x01, 0), 1, b"a.txt")),
        ((258, 0x01, 0), inode_item(0o100644, 5)),
        ((258, 0x0C, 256), {
            let mut d = Vec::new();
            d.extend_from_slice(&1u64.to_le_bytes());
            d.extend_from_slice(&5u16.to_le_bytes());
            d.extend_from_slice(b"a.txt");
            d
        }),
        ((258, 0x6C, 0), inline_extent(b"hello", 0, 5)),
        ((260, 0x01, 0), inode_item(0o100644, 2)),
        ((260, 0x6C, 0), inline_extent(b"BB", 0, 2)),
        ((300, 0x01, 0), inode_item(0o100644, 20)),
        ((300, 0x6C, 0), inline_extent(b"hello", 0, 5)),
        ((300, 0x6C, 5), regular_extent(0, 0, 0, 10, 0, 10)),
        ((300, 0x6C, 15), regular_extent(world_at, 4096, 0, 5, 0, 5)),
        ((301, 0x01, 0), inode_item(0o100644, 10)),
        (
            (301, 0x6C, 0),
            regular_extent(zstd_at, zstd_blob.len() as u64, 0, 10, 3, 10),
        ),
    ];

    let root_items: Vec<((u64, u8, u64), Vec<u8>)> = vec![
        ((5, 0x84, 0), root_item_bytes(fs_leaf, 0)),
        ((256, 0x84, 0), root_item_bytes(fs_leaf, 0)),
    ];

    let mut image = vec![0u8; 0x40000];
    let sb = build_superblock(root_tree, 0, chunk_root);
    image[0x10000..0x11000].copy_from_slice(&sb);
    let chunk_leaf = build_leaf(chunk_root, 3, &[]);
    image[chunk_root as usize..chunk_root as usize + NODE_SIZE].copy_from_slice(&chunk_leaf);
    let root_leaf = build_leaf(root_tree, 1, &root_items);
    image[root_tree as usize..root_tree as usize + NODE_SIZE].copy_from_slice(&root_leaf);
    let fs_node = build_leaf(fs_leaf, 5, &fs_items);
    image[fs_leaf as usize..fs_leaf as usize + NODE_SIZE].copy_from_slice(&fs_node);
    image[world_at as usize..world_at as usize + 5].copy_from_slice(b"world");
    image[zstd_at as usize..zstd_at as usize + zstd_blob.len()].copy_from_slice(&zstd_blob);

    BtrfsFilesystem::open(MemoryDevice::new(image, true), true).unwrap()
}

#[test]
fn test_filesystem_accessors() {
    let fs = demo_fs();
    assert_eq!(fs.label(), "demo");
    assert_eq!(fs.generation(), 100);
    assert_eq!(fs.total_bytes(), 0x1000000);
    assert_eq!(fs.bytes_used(), 0x100000);
    assert_eq!(fs.node_size(), 4096);
    assert!(fs.is_read_only());
    assert_eq!(fs.uuid().as_slice(), &FSID);
}

#[test]
fn test_resolve_path_walks_directories() {
    // A root directory holding "docs", which holds "a.txt": resolving
    // the path finds inode 258 and its metadata.
    let fs = demo_fs();
    let (ino, inode) = resolve_path(&fs, 5, "/docs/a.txt").unwrap();
    assert_eq!(ino, 258);
    assert_eq!(inode.ino, 258);
    assert_eq!(inode.size, 5);
    assert!(inode.is_file());

    let (root_ino, root_inode) = resolve_path(&fs, 5, "/").unwrap();
    assert_eq!(root_ino, 256);
    assert!(root_inode.is_dir());

    match resolve_path(&fs, 5, "/docs/missing.txt") {
        Err(BtrfsError::NotFound(_)) => (),
        other => panic!("expected NotFound, got {:?}", other.map(|_| ())),
    }
}

#[test]
fn test_lookup_picks_byte_exact_match() {
    // Two packed entries share the hash bucket; lookup returns the
    // byte-exact match, never the first colliding stranger.
    let fs = demo_fs();
    let entry = lookup(&fs, 5, 256, "bb").unwrap();
    assert_eq!(entry.ino, 260);
    assert_eq!(entry.name, "bb");
    assert_eq!(entry.name_bytes, b"bb".to_vec());
    assert_eq!(entry.entry_type, InodeType::File);
}

#[test]
fn test_read_dir_in_sequence_order() {
    let fs = demo_fs();
    let entries = read_dir(&fs, 5, 256).unwrap();
    assert_eq!(entries.len(), 2);
    assert_eq!(entries[0].name, "docs");
    assert_eq!(entries[1].name, "bb");
}

#[test]
fn test_read_inode_and_refs() {
    let fs = demo_fs();
    let inode = read_inode(&fs, 5, 258).unwrap();
    assert_eq!(inode.ino, 258);
    assert_eq!(inode.size, 5);

    let refs = get_inode_refs(&fs, 5, 258).unwrap();
    assert_eq!(refs.len(), 1);
    assert_eq!(refs[0].0, 256);
    assert_eq!(refs[0].1.name, "a.txt");

    match read_inode(&fs, 5, 9999) {
        Err(BtrfsError::InvalidInode(9999)) => (),
        other => panic!("expected InvalidInode, got {:?}", other.map(|_| ())),
    }
}

#[test]
fn test_read_file_extents_in_order() {
    let fs = demo_fs();
    let extents = read_file_extents(&fs, 5, 300).unwrap();
    assert_eq!(extents.len(), 3);
    assert!(extents[0].is_inline());
    assert!(extents[1].is_sparse());
    assert!(extents[2].is_regular());
}

#[test]
fn test_file_reassembly_inline_hole_regular() {
    // An inline "hello", an explicit 10-byte hole, then a regular
    // 5-byte extent holding "world": the file reads back with the
    // hole zero-filled to its declared length.
    let fs = demo_fs();
    let data = read_file_data(&fs, 5, 300, 0, 20).unwrap();
    assert_eq!(data, b"hello\0\0\0\0\0\0\0\0\0\0world".to_vec());
}

#[test]
fn test_read_file_truncates_to_inode_size() {
    // Reads never return more than the file's declared size allows.
    let fs = demo_fs();
    let data = read_file_data(&fs, 5, 300, 0, 100).unwrap();
    assert_eq!(data.len(), 20);

    let tail = read_file_data(&fs, 5, 300, 18, 100).unwrap();
    assert_eq!(tail, b"ld".to_vec());

    let beyond = read_file_data(&fs, 5, 300, 25, 10).unwrap();
    assert_eq!(beyond.len(), 0);

    let inline_only = read_file_data(&fs, 5, 258, 0, 100).unwrap();
    assert_eq!(inline_only, b"hello".to_vec());
}

#[test]
fn test_read_file_rejects_directories() {
    let fs = demo_fs();
    match read_file_data(&fs, 5, 256, 0, 10) {
        Err(BtrfsError::NotAFile) => (),
        other => panic!("expected NotAFile, got {:?}", other.map(|_| ())),
    }
}

#[test]
fn test_read_file_compressed_extent() {
    // A zstd-compressed on-disk extent decodes through the chunk
    // mapping and reads back as its plain contents.
    let fs = demo_fs();
    let data = read_file_data(&fs, 5, 301, 0, 10).unwrap();
    assert_eq!(data, b"0123456789".to_vec());
    let mid = read_file_data(&fs, 5, 301, 3, 4).unwrap();
    assert_eq!(mid, b"3456".to_vec());
}

#[test]
fn test_default_subvolume() {
    // The superblock of this image names tree 5 as its root directory
    // object id, so the default subvolume is the filesystem tree.
    let fs = demo_fs();
    let sv = fs.default_subvolume().unwrap();
    assert_eq!(sv.id, 5);
    assert_eq!(sv.name, "(FS_TREE)");
    assert_eq!(sv.path, "/");
}

#[test]
fn test_subvolume_listing() {
    let fs = demo_fs();
    let subvols = list_subvolumes(&fs).unwrap();
    assert_eq!(subvols[0].id, 5);
    assert!(subvols.iter().any(|s| s.id == 256));

    let sv = get_subvolume(&fs, 256).unwrap();
    assert_eq!(sv.id, 256);
    assert_eq!(sv.root_bytenr, 0x16000);
    assert_eq!(sv.generation, 7);

    match get_subvolume(&fs, 4242) {
        Err(BtrfsError::SubvolumeNotFound(4242)) => (),
        other => panic!("expected SubvolumeNotFound, got {:?}", other.map(|_| ())),
    }
}

#[test]
fn test_logical_to_physical_through_handle() {
    let fs = demo_fs();
    // The identity bootstrap chunk maps every address to itself on
    // device 1.
    assert_eq!(fs.logical_to_physical(0x1234).unwrap(), vec![(1, 0x1234)]);
}
