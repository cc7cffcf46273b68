use btrfs_core::inode::{parse_dir_entries, DirEntry, ExtentData, Inode, InodeRef, InodeType, TimeSpec};

#[test]
fn test_inode_type_from_dir_type() {
    assert_eq!(InodeType::from_dir_type(1), InodeType::File);
    assert_eq!(InodeType::from_dir_type(2), InodeType::Directory);
    assert_eq!(InodeType::from_dir_type(3), InodeType::CharDevice);
    assert_eq!(InodeType::from_dir_type(4), InodeType::BlockDevice);
    assert_eq!(InodeType::from_dir_type(5), InodeType::Fifo);
    assert_eq!(InodeType::from_dir_type(6), InodeType::Socket);
    assert_eq!(InodeType::from_dir_type(7), InodeType::Symlink);
    assert_eq!(InodeType::from_dir_type(0), InodeType::Unknown);
    assert_eq!(InodeType::from_dir_type(255), InodeType::Unknown);
}

#[test]
fn test_inode_type_from_mode() {
    assert_eq!(InodeType::from_mode(0o100644), InodeType::File);
    assert_eq!(InodeType::from_mode(0o040755), InodeType::Directory);
    assert_eq!(InodeType::from_mode(0o120777), InodeType::Symlink);
    assert_eq!(InodeType::from_mode(0o060660), InodeType::BlockDevice);
    assert_eq!(InodeType::from_mode(0o020660), InodeType::CharDevice);
    assert_eq!(InodeType::from_mode(0o010644), InodeType::Fifo);
    assert_eq!(InodeType::from_mode(0o140755), InodeType::Socket);
    assert_eq!(InodeType::from_mode(0o000000), InodeType::Unknown);
}

fn create_mock_inode_data() -> Vec<u8> {
    let mut data = vec![0u8; 160];
    // generation
    data[0..8].copy_from_slice(&100u64.to_le_bytes());
    // transid
    data[8..16].copy_from_slice(&101u64.to_le_bytes());
    // size
    data[16..24].copy_from_slice(&4096u64.to_le_bytes());
    // nbytes
    data[24..32].copy_from_slice(&4096u64.to_le_bytes());
    // block_group
    data[32..40].copy_from_slice(&0u64.to_le_bytes());
    // nlink
    data[40..44].copy_from_slice(&1u32.to_le_bytes());
    // uid
    data[44..48].copy_from_slice(&1000u32.to_le_bytes());
    // gid
    data[48..52].copy_from_slice(&1000u32.to_le_bytes());
    // mode (regular file with 0644)
    data[52..56].copy_from_slice(&0o100644u32.to_le_bytes());
    // rdev
    data[56..64].copy_from_slice(&0u64.to_le_bytes());
    // flags
    data[64..72].copy_from_slice(&0u64.to_le_bytes());
    // sequence
    data[72..80].copy_from_slice(&1u64.to_le_bytes());
    // reserved (80-112)
    // atime
    data[112..120].copy_from_slice(&1700000000i64.to_le_bytes());
    data[120..124].copy_from_slice(&123456u32.to_le_bytes());
    // ctime
    data[124..132].copy_from_slice(&1700000001i64.to_le_bytes());
    data[132..136].copy_from_slice(&234567u32.to_le_bytes());
    // mtime
    data[136..144].copy_from_slice(&1700000002i64.to_le_bytes());
    data[144..148].copy_from_slice(&345678u32.to_le_bytes());
    // otime
    data[148..156].copy_from_slice(&1700000003i64.to_le_bytes());
    data[156..160].copy_from_slice(&456789u32.to_le_bytes());
    data
}

#[test]
fn test_inode_from_bytes() {
    let data = create_mock_inode_data();
    let inode = Inode::from_bytes(256, &data).unwrap();

    assert_eq!(inode.ino, 256);
    assert_eq!(inode.generation, 100);
    assert_eq!(inode.transid, 101);
    assert_eq!(inode.size, 4096);
    assert_eq!(inode.nbytes, 4096);
    assert_eq!(inode.nlink, 1);
    assert_eq!(inode.uid, 1000);
    assert_eq!(inode.gid, 1000);
    assert_eq!(inode.mode, 0o100644);
    assert_eq!(inode.atime.sec, 1700000000);
    assert_eq!(inode.atime.nsec, 123456);
}

#[test]
fn test_inode_from_bytes_too_small() {
    let data = vec![0u8; 100]; // Too small
    let result = Inode::from_bytes(256, &data);
    assert!(result.is_err());
}

#[test]
fn test_inode_type_methods() {
    let mut data = create_mock_inode_data();

    // Test file
    data[52..56].copy_from_slice(&0o100644u32.to_le_bytes());
    let inode = Inode::from_bytes(256, &data).unwrap();
    assert!(inode.is_file());
    assert!(!inode.is_dir());
    assert!(!inode.is_symlink());
    assert_eq!(inode.inode_type(), InodeType::File);

    // Test directory
    data[52..56].copy_from_slice(&0o040755u32.to_le_bytes());
    let inode = Inode::from_bytes(256, &data).unwrap();
    assert!(!inode.is_file());
    assert!(inode.is_dir());
    assert!(!inode.is_symlink());
    assert_eq!(inode.inode_type(), InodeType::Directory);

    // Test symlink
    data[52..56].copy_from_slice(&0o120777u32.to_le_bytes());
    let inode = Inode::from_bytes(256, &data).unwrap();
    assert!(!inode.is_file());
    assert!(!inode.is_dir());
    assert!(inode.is_symlink());
    assert_eq!(inode.inode_type(), InodeType::Symlink);
}

fn create_mock_dir_entry_data(name: &str) -> Vec<u8> {
    let name_bytes = name.as_bytes();
    let mut data = vec![0u8; 30 + name_bytes.len()];
    // ino (location key objectid)
    data[0..8].copy_from_slice(&257u64.to_le_bytes());
    // type in location key
    data[8] = 0x01;
    // child_tree (location key offset)
    data[9..17].copy_from_slice(&5u64.to_le_bytes());
    // transid
    data[17..25].copy_from_slice(&100u64.to_le_bytes());
    // data_len
    data[25..27].copy_from_slice(&0u16.to_le_bytes());
    // name_len
    data[27..29].copy_from_slice(&(name_bytes.len() as u16).to_le_bytes());
    // type (1 = file)
    data[29] = 1;
    // name
    data[30..30 + name_bytes.len()].copy_from_slice(name_bytes);
    data
}

#[test]
fn test_dir_entry_from_bytes() {
    let data = create_mock_dir_entry_data("test.txt");
    let entry = DirEntry::from_bytes(&data).unwrap();

    assert_eq!(entry.ino, 257);
    assert_eq!(entry.child_tree, 5);
    assert_eq!(entry.entry_type, InodeType::File);
    assert_eq!(entry.name, "test.txt");
}

#[test]
fn test_dir_entry_from_bytes_too_small() {
    let data = vec![0u8; 20]; // Too small
    let result = DirEntry::from_bytes(&data);
    assert!(result.is_err());
}

#[test]
fn test_dir_entry_name_truncated() {
    let mut data = vec![0u8; 30];
    data[27..29].copy_from_slice(&100u16.to_le_bytes()); // name_len = 100, but no name data
    let result = DirEntry::from_bytes(&data);
    assert!(result.is_err());
}

fn create_mock_inode_ref_data(name: &str) -> Vec<u8> {
    let name_bytes = name.as_bytes();
    let mut data = vec![0u8; 10 + name_bytes.len()];
    // index
    data[0..8].copy_from_slice(&42u64.to_le_bytes());
    // name_len
    data[8..10].copy_from_slice(&(name_bytes.len() as u16).to_le_bytes());
    // name
    data[10..10 + name_bytes.len()].copy_from_slice(name_bytes);
    data
}

#[test]
fn test_inode_ref_from_bytes() {
    let data = create_mock_inode_ref_data("myfile.txt");
    let iref = InodeRef::from_bytes(&data).unwrap();

    assert_eq!(iref.index, 42);
    assert_eq!(iref.name_len, 10);
    assert_eq!(iref.name, "myfile.txt");
}

#[test]
fn test_inode_ref_from_bytes_too_small() {
    let data = vec![0u8; 5]; // Too small
    let result = InodeRef::from_bytes(&data);
    assert!(result.is_err());
}

#[test]
fn test_inode_ref_name_truncated() {
    let mut data = vec![0u8; 10];
    data[8..10].copy_from_slice(&100u16.to_le_bytes()); // name_len = 100, but no name data
    let result = InodeRef::from_bytes(&data);
    assert!(result.is_err());
}

fn create_mock_inline_extent_data(content: &[u8]) -> Vec<u8> {
    let mut data = vec![0u8; 21 + content.len()];
    // generation
    data[0..8].copy_from_slice(&100u64.to_le_bytes());
    // ram_bytes
    data[8..16].copy_from_slice(&(content.len() as u64).to_le_bytes());
    // compression
    data[16] = 0;
    // encryption
    data[17] = 0;
    // other_encoding
    data[18..20].copy_from_slice(&0u16.to_le_bytes());
    // extent_type (0 = inline)
    data[20] = 0;
    // inline data
    data[21..21 + content.len()].copy_from_slice(content);
    data
}

fn create_mock_regular_extent_data() -> Vec<u8> {
    let mut data = vec![0u8; 53];
    // generation
    data[0..8].copy_from_slice(&100u64.to_le_bytes());
    // ram_bytes
    data[8..16].copy_from_slice(&4096u64.to_le_bytes());
    // compression
    data[16] = 0;
    // encryption
    data[17] = 0;
    // other_encoding
    data[18..20].copy_from_slice(&0u16.to_le_bytes());
    // extent_type (1 = regular)
    data[20] = 1;
    // disk_bytenr
    data[21..29].copy_from_slice(&0x100000u64.to_le_bytes());
    // disk_num_bytes
    data[29..37].copy_from_slice(&4096u64.to_le_bytes());
    // offset
    data[37..45].copy_from_slice(&0u64.to_le_bytes());
    // num_bytes
    data[45..53].copy_from_slice(&4096u64.to_le_bytes());
    data
}

#[test]
fn test_extent_data_inline() {
    let content = b"Hello, BTRFS!";
    let data = create_mock_inline_extent_data(content);
    let extent = ExtentData::from_bytes(&data).unwrap();

    assert_eq!(extent.generation, 100);
    assert_eq!(extent.ram_bytes, content.len() as u64);
    assert_eq!(extent.compression, 0);
    assert_eq!(extent.extent_type, 0);
    assert!(extent.is_inline());
    assert!(!extent.is_sparse());
    assert_eq!(extent.inline_data, Some(content.to_vec()));
    assert!(extent.disk_bytenr.is_none());
}

#[test]
fn test_extent_data_regular() {
    let data = create_mock_regular_extent_data();
    let extent = ExtentData::from_bytes(&data).unwrap();

    assert_eq!(extent.generation, 100);
    assert_eq!(extent.ram_bytes, 4096);
    assert_eq!(extent.extent_type, 1);
    assert!(!extent.is_inline());
    assert!(!extent.is_sparse());
    assert!(extent.inline_data.is_none());
    assert_eq!(extent.disk_bytenr, Some(0x100000));
    assert_eq!(extent.disk_num_bytes, Some(4096));
    assert_eq!(extent.offset, Some(0));
    assert_eq!(extent.num_bytes, Some(4096));
}

#[test]
fn test_extent_data_sparse() {
    let mut data = create_mock_regular_extent_data();
    // Set disk_bytenr to 0 for sparse
    data[21..29].copy_from_slice(&0u64.to_le_bytes());
    let extent = ExtentData::from_bytes(&data).unwrap();

    assert!(extent.is_sparse());
}

#[test]
fn test_extent_data_too_small() {
    let data = vec![0u8; 15]; // Too small
    let result = ExtentData::from_bytes(&data);
    assert!(result.is_err());
}

#[test]
fn test_extent_data_regular_too_small() {
    let mut data = vec![0u8; 30];
    data[20] = 1; // Regular extent type
    let result = ExtentData::from_bytes(&data);
    assert!(result.is_err());
}

#[test]
fn inode_test_timespec_default() {
    let ts = TimeSpec::default();
    assert_eq!(ts.sec, 0);
    assert_eq!(ts.nsec, 0);
}

#[test]
fn test_parse_dir_entries_packed() {
    // Two entries packed back to back in one item body.
    let mut data = create_mock_dir_entry_data("one");
    data.extend_from_slice(&create_mock_dir_entry_data("two"));
    let entries = parse_dir_entries(&data).unwrap();
    assert_eq!(entries.len(), 2);
    assert_eq!(entries[0].name, "one");
    assert_eq!(entries[1].name, "two");

    // A truncated tail is corrupt.
    data.truncate(data.len() - 1);
    assert!(parse_dir_entries(&data).is_err());
}

#[test]
fn test_dir_entry_invalid_utf8_name_lossy() {
    // The raw name bytes are kept exactly; the decoded name replaces
    // the invalid byte.
    let mut data = vec![0u8; 32];
    data[27..29].copy_from_slice(&2u16.to_le_bytes());
    data[29] = 1;
    data[30] = 0xFF;
    data[31] = b'A';
    let entry = DirEntry::from_bytes(&data).unwrap();
    assert_eq!(entry.name_bytes, vec![0xFF, b'A']);
    assert_eq!(entry.name, "\u{FFFD}A");
}

#[test]
fn test_inline_extent_prefix_values() {
    // A 21-byte prefix declaring five decoded bytes of plain data,
    // followed by the payload.
    let data = create_mock_inline_extent_data(b"hello");
    let extent = ExtentData::from_bytes(&data).unwrap();
    assert_eq!(extent.ram_bytes, 5);
    assert_eq!(extent.compression, 0);
    assert_eq!(extent.extent_type, 0);
    assert!(extent.is_inline());
    assert_eq!(extent.inline_data, Some(b"hello".to_vec()));
}
