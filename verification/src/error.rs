//! Error taxonomy of the reader.
//!
//! Every operation reports failures through explicit `Result` values;
//! there is no unwinding. Structural errors carry a human-readable
//! locator built with the verified renderers of `numfmt`.

use vstd::prelude::*;
use vstd::string::StringExecFns;

use crate::numfmt::{u32_to_hex8, u64_to_dec};

verus! {

/// Errors of the block device layer.
#[derive(Debug, Clone)]
pub enum BlockDeviceError {
    /// An I/O failure, with the underlying cause as text.
    Io(String),
    /// The device does not exist.
    NotFound(String),
    /// The device exists but cannot be opened.
    AccessDenied(String),
    /// The requested offset lies outside the device.
    InvalidOffset { offset: u64, size: u64 },
    /// A read past the end of the device.
    ReadBeyondEnd,
    /// A write was attempted on a read-only device.
    ReadOnly,
    /// A platform API failure, with the underlying cause as text.
    WindowsError(String),
}

impl BlockDeviceError {
    /// A human-readable description of the error.
    pub fn message(&self) -> String {
        match self {
            BlockDeviceError::Io(s) => {
                let mut m = "I/O error: ".to_owned();
                m.append(s.as_str());
                m
            },
            BlockDeviceError::NotFound(s) => {
                let mut m = "Device not found: ".to_owned();
                m.append(s.as_str());
                m
            },
            BlockDeviceError::AccessDenied(s) => {
                let mut m = "Access denied: ".to_owned();
                m.append(s.as_str());
                m
            },
            BlockDeviceError::InvalidOffset { offset, size } => {
                let mut m = "Invalid offset: ".to_owned();
                m.append(u64_to_dec(*offset).as_str());
                m.append(" (device size: ");
                m.append(u64_to_dec(*size).as_str());
                m.append(")");
                m
            },
            BlockDeviceError::ReadBeyondEnd => "Read beyond end of device".to_owned(),
            BlockDeviceError::ReadOnly => "Device is read-only".to_owned(),
            BlockDeviceError::WindowsError(s) => {
                let mut m = "Windows API error: ".to_owned();
                m.append(s.as_str());
                m
            },
        }
    }
}

/// Errors of the filesystem core.
#[derive(Debug, Clone)]
pub enum BtrfsError {
    /// An I/O failure, with the underlying cause as text.
    Io(String),
    /// A block device failure.
    BlockDevice(BlockDeviceError),
    /// The superblock magic did not match.
    InvalidMagic,
    /// A checksum did not match the stored value.
    ChecksumMismatch { expected: u32, actual: u32 },
    /// A feature bit or checksum type this reader does not implement.
    UnsupportedFeature(String),
    /// A structural inconsistency, with a locator.
    Corrupt(String),
    /// A key or mapping is absent.
    NotFound(String),
    /// An unrecognized tree type byte.
    InvalidTreeType(u8),
    /// An algorithm-specific decompression failure.
    DecompressionError(String),
    /// An unknown compression algorithm byte.
    UnsupportedCompression(u8),
    /// No inode item exists for a presumed-valid inode number.
    InvalidInode(u64),
    /// The object is not a directory.
    NotADirectory,
    /// The object is not a regular file.
    NotAFile,
    /// An unknown subvolume id.
    SubvolumeNotFound(u64),
    /// A write was attempted on a read-only filesystem.
    ReadOnly,
    /// No space is left on the filesystem.
    NoSpace,
}

impl BtrfsError {
    /// A human-readable description of the error.
    pub fn message(&self) -> String {
        match self {
            BtrfsError::Io(s) => {
                let mut m = "I/O error: ".to_owned();
                m.append(s.as_str());
                m
            },
            BtrfsError::BlockDevice(e) => {
                let mut m = "Block device error: ".to_owned();
                m.append(e.message().as_str());
                m
            },
            BtrfsError::InvalidMagic => "Invalid magic number".to_owned(),
            BtrfsError::ChecksumMismatch { expected, actual } => {
                let mut m = "Checksum mismatch: expected ".to_owned();
                m.append(u32_to_hex8(*expected).as_str());
                m.append(", got ");
                m.append(u32_to_hex8(*actual).as_str());
                m
            },
            BtrfsError::UnsupportedFeature(s) => {
                let mut m = "Unsupported BTRFS feature: ".to_owned();
                m.append(s.as_str());
                m
            },
            BtrfsError::Corrupt(s) => {
                let mut m = "Corrupt filesystem: ".to_owned();
                m.append(s.as_str());
                m
            },
            BtrfsError::NotFound(s) => {
                let mut m = "Item not found: ".to_owned();
                m.append(s.as_str());
                m
            },
            BtrfsError::InvalidTreeType(t) => {
                let mut m = "Invalid tree type: ".to_owned();
                m.append(u64_to_dec(*t as u64).as_str());
                m
            },
            BtrfsError::DecompressionError(s) => {
                let mut m = "Decompression error: ".to_owned();
                m.append(s.as_str());
                m
            },
            BtrfsError::UnsupportedCompression(c) => {
                let mut m = "Compression not supported: ".to_owned();
                m.append(u64_to_dec(*c as u64).as_str());
                m
            },
            BtrfsError::InvalidInode(ino) => {
                let mut m = "Invalid inode: ".to_owned();
                m.append(u64_to_dec(*ino).as_str());
                m
            },
            BtrfsError::NotADirectory => "Not a directory".to_owned(),
            BtrfsError::NotAFile => "Not a file".to_owned(),
            BtrfsError::SubvolumeNotFound(id) => {
                let mut m = "Subvolume not found: ".to_owned();
                m.append(u64_to_dec(*id).as_str());
                m
            },
            BtrfsError::ReadOnly => "Read-only filesystem".to_owned(),
            BtrfsError::NoSpace => "No space left".to_owned(),
        }
    }

    /// Wraps a block device failure.
    pub fn from_block_device(e: BlockDeviceError) -> (r: BtrfsError)
        ensures
            r is BlockDevice,
    {
        BtrfsError::BlockDevice(e)
    }
}

} // verus!
