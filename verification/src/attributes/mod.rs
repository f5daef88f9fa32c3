//! The typed attribute decoders: StandardInformation, FileName, volume
//! attributes, attribute lists, and the allocation bitmap.

use vstd::prelude::*;

pub mod bitmap;
pub mod filename;
pub mod list;
pub mod standard;
pub mod volume;

verus! {

/// Bit 0: read-only.
pub const FILE_ATTRIBUTE_READONLY: u32 = 0x0000_0001;

/// Bit 1: hidden.
pub const FILE_ATTRIBUTE_HIDDEN: u32 = 0x0000_0002;

/// Bit 2: system.
pub const FILE_ATTRIBUTE_SYSTEM: u32 = 0x0000_0004;

/// Bit 4: directory.
pub const FILE_ATTRIBUTE_DIRECTORY: u32 = 0x0000_0010;

/// Bit 5: archive.
pub const FILE_ATTRIBUTE_ARCHIVE: u32 = 0x0000_0020;

/// Bit 6: device.
pub const FILE_ATTRIBUTE_DEVICE: u32 = 0x0000_0040;

/// Bit 7: normal.
pub const FILE_ATTRIBUTE_NORMAL: u32 = 0x0000_0080;

/// Bit 8: temporary.
pub const FILE_ATTRIBUTE_TEMPORARY: u32 = 0x0000_0100;

/// Bit 9: sparse.
pub const FILE_ATTRIBUTE_SPARSE: u32 = 0x0000_0200;

/// Bit 10: reparse point.
pub const FILE_ATTRIBUTE_REPARSE: u32 = 0x0000_0400;

/// Bit 11: compressed.
pub const FILE_ATTRIBUTE_COMPRESSED: u32 = 0x0000_0800;

/// Bit 12: offline.
pub const FILE_ATTRIBUTE_OFFLINE: u32 = 0x0000_1000;

/// Bit 13: not content-indexed.
pub const FILE_ATTRIBUTE_NOT_INDEXED: u32 = 0x0000_2000;

/// Bit 14: encrypted.
pub const FILE_ATTRIBUTE_ENCRYPTED: u32 = 0x0000_4000;

/// The union of all defined file-attribute bits.
pub const FILE_ATTRIBUTE_ALL: u32 = 0x0000_7ff7;

/// The DOS file-attribute flags carried by StandardInformation and
/// FileName attributes.
#[derive(Debug, Clone, Copy, PartialEq, Eq, Structural)]
pub struct FileAttributes {
    pub bits: u32,
}

impl FileAttributes {
    /// Keeps the defined bits of a raw flags field and drops the rest.
    pub fn from_bits_truncate(bits: u32) -> (r: FileAttributes)
        ensures
            r.bits == bits & FILE_ATTRIBUTE_ALL,
    {
        FileAttributes { bits: bits & FILE_ATTRIBUTE_ALL }
    }

    /// Whether the read-only bit is set.
    pub fn is_readonly(&self) -> (r: bool)
        ensures
            r == (self.bits & FILE_ATTRIBUTE_READONLY != 0),
    {
        self.bits & FILE_ATTRIBUTE_READONLY != 0
    }

    /// Whether the hidden bit is set.
    pub fn is_hidden(&self) -> (r: bool)
        ensures
            r == (self.bits & FILE_ATTRIBUTE_HIDDEN != 0),
    {
        self.bits & FILE_ATTRIBUTE_HIDDEN != 0
    }

    /// Whether the system bit is set.
    pub fn is_system(&self) -> (r: bool)
        ensures
            r == (self.bits & FILE_ATTRIBUTE_SYSTEM != 0),
    {
        self.bits & FILE_ATTRIBUTE_SYSTEM != 0
    }

    /// Whether the directory bit is set.
    pub fn is_directory(&self) -> (r: bool)
        ensures
            r == (self.bits & FILE_ATTRIBUTE_DIRECTORY != 0),
    {
        self.bits & FILE_ATTRIBUTE_DIRECTORY != 0
    }
}

} // verus!
