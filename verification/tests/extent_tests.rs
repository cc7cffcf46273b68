use btrfs_core::extent::{BlockGroupItem, DevExtent};
use btrfs_core::extent_flags;

#[test]
fn test_extent_flags() {
    assert_eq!(extent_flags::DATA, 1);
    assert_eq!(extent_flags::TREE_BLOCK, 2);
    assert_eq!(extent_flags::FULL_BACKREF, 256);
}

fn create_mock_block_group_item_data() -> Vec<u8> {
    let mut data = vec![0u8; 24];
    // used
    data[0..8].copy_from_slice(&1048576u64.to_le_bytes()); // 1MB used
    // chunk_objectid
    data[8..16].copy_from_slice(&256u64.to_le_bytes());
    // flags (DATA | SINGLE)
    data[16..24].copy_from_slice(&1u64.to_le_bytes());
    data
}

#[test]
fn test_block_group_item_from_bytes() {
    let data = create_mock_block_group_item_data();
    let item = BlockGroupItem::from_bytes(&data).unwrap();

    assert_eq!(item.used, 1048576);
    assert_eq!(item.chunk_objectid, 256);
    assert_eq!(item.flags, 1);
}

#[test]
fn test_block_group_item_from_bytes_too_small() {
    let data = vec![0u8; 20]; // Too small
    let result = BlockGroupItem::from_bytes(&data);
    assert!(result.is_err());
}

fn create_mock_dev_extent_data() -> Vec<u8> {
    let mut data = vec![0u8; 48];
    // chunk_tree (always 3)
    data[0..8].copy_from_slice(&3u64.to_le_bytes());
    // chunk_objectid
    data[8..16].copy_from_slice(&256u64.to_le_bytes());
    // chunk_offset
    data[16..24].copy_from_slice(&0x100000u64.to_le_bytes());
    // length
    data[24..32].copy_from_slice(&0x10000000u64.to_le_bytes()); // 256MB
    // chunk_tree_uuid
    for i in 0..16 {
        data[32 + i] = i as u8;
    }
    data
}

#[test]
fn test_dev_extent_from_bytes() {
    let data = create_mock_dev_extent_data();
    let extent = DevExtent::from_bytes(&data).unwrap();

    assert_eq!(extent.chunk_tree, 3);
    assert_eq!(extent.chunk_objectid, 256);
    assert_eq!(extent.chunk_offset, 0x100000);
    assert_eq!(extent.length, 0x10000000);

    // Check UUID
    for i in 0..16 {
        assert_eq!(extent.chunk_tree_uuid[i], i as u8);
    }
}

#[test]
fn test_dev_extent_from_bytes_too_small() {
    let data = vec![0u8; 40]; // Too small
    let result = DevExtent::from_bytes(&data);
    assert!(result.is_err());
}
