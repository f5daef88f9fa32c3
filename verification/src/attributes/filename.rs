//! The FileName attribute: parent reference, timestamps, sizes, and the
//! name itself with its namespace.

use vstd::prelude::*;

use crate::attributes::FileAttributes;
use crate::attributes::FILE_ATTRIBUTE_ALL;
use crate::bytes::le16_at;
use crate::bytes::le32_at;
use crate::bytes::le48_at;
use crate::bytes::le64_at;
use crate::bytes::read_u16_at;
use crate::bytes::read_u32_at;
use crate::bytes::read_u48_at;
use crate::bytes::read_u64_at;
use crate::bytes::spec_utf16_units;
use crate::bytes::utf16_units;
use crate::datetime::Timestamp;
use crate::error::NtfsError;
use crate::text::utf16_chars;
use crate::text::utf16_to_string;
use crate::vfile::VFile;

verus! {

/// The namespace a filename was recorded under.
#[derive(Debug, Clone, Copy, PartialEq, Eq, Structural)]
pub enum NameSpace {
    Posix,
    Win32,
    Dos,
    DosWin32,
}

/// The namespace encoded by a raw byte, when it is one of the four known
/// values.
pub open spec fn spec_namespace_of(raw: u8) -> Option<NameSpace> {
    if raw == 0 {
        Some(NameSpace::Posix)
    } else if raw == 1 {
        Some(NameSpace::Win32)
    } else if raw == 2 {
        Some(NameSpace::Dos)
    } else if raw == 3 {
        Some(NameSpace::DosWin32)
    } else {
        None
    }
}

impl NameSpace {
    /// Decodes the on-disk namespace byte.
    pub fn from_u8(raw: u8) -> (r: Option<NameSpace>)
        ensures
            r == spec_namespace_of(raw),
    {
        if raw == 0 {
            Some(NameSpace::Posix)
        } else if raw == 1 {
            Some(NameSpace::Win32)
        } else if raw == 2 {
            Some(NameSpace::Dos)
        } else if raw == 3 {
            Some(NameSpace::DosWin32)
        } else {
            None
        }
    }

    /// Whether this namespace takes precedence when choosing a display
    /// name: Win32 and DosWin32 names win over Posix and Dos ones.
    pub fn is_preferred(&self) -> (r: bool)
        ensures
            r == (*self == NameSpace::Win32 || *self == NameSpace::DosWin32),
    {
        match self {
            NameSpace::Win32 => true,
            NameSpace::DosWin32 => true,
            NameSpace::Posix => false,
            NameSpace::Dos => false,
        }
    }
}

/// A decoded FileName attribute.
#[derive(Debug, Clone, PartialEq, Eq)]
pub struct FileName {
    pub file_name: String,
    pub parent_mft_entry_id: u64,
    pub parent_sequence: u16,
    pub creation_time: Timestamp,
    pub modification_time: Timestamp,
    pub mft_modification_time: Timestamp,
    pub accessed_time: Timestamp,
    pub allocated_size: u64,
    pub real_size: u64,
    pub flags: FileAttributes,
    pub reparse_value: u32,
    pub name_length: u8,
    pub name_space: NameSpace,
}

/// Two FileName values that agree on every field; the name is compared by
/// its characters.
pub open spec fn filename_equiv(a: FileName, b: FileName) -> bool {
    &&& a.file_name@ == b.file_name@
    &&& a.parent_mft_entry_id == b.parent_mft_entry_id
    &&& a.parent_sequence == b.parent_sequence
    &&& a.creation_time == b.creation_time
    &&& a.modification_time == b.modification_time
    &&& a.mft_modification_time == b.mft_modification_time
    &&& a.accessed_time == b.accessed_time
    &&& a.allocated_size == b.allocated_size
    &&& a.real_size == b.real_size
    &&& a.flags == b.flags
    &&& a.reparse_value == b.reparse_value
    &&& a.name_length == b.name_length
    &&& a.name_space == b.name_space
}

/// The fixed 66-byte header fields of a FileName content `s`.
pub open spec fn spec_filename_fields(s: Seq<u8>, fname: FileName) -> bool {
    &&& fname.parent_mft_entry_id == le48_at(s, 0)
    &&& fname.parent_sequence == le16_at(s, 6)
    &&& fname.creation_time == (Timestamp { filetime: le64_at(s, 8) as u64 })
    &&& fname.modification_time == (Timestamp { filetime: le64_at(s, 16) as u64 })
    &&& fname.mft_modification_time == (Timestamp { filetime: le64_at(s, 24) as u64 })
    &&& fname.accessed_time == (Timestamp { filetime: le64_at(s, 32) as u64 })
    &&& fname.allocated_size == le64_at(s, 40)
    &&& fname.real_size == le64_at(s, 48)
    &&& fname.flags.bits == le32_at(s, 56) as u32 & FILE_ATTRIBUTE_ALL
    &&& fname.reparse_value == le32_at(s, 60)
    &&& fname.name_length == s[64]
    &&& Some(fname.name_space) == spec_namespace_of(s[65])
    &&& fname.file_name@ == utf16_chars(spec_utf16_units(s.subrange(66, 66 + 2 * s[64])))
}

impl FileName {
    /// An equivalent copy: every field is kept, the name character for
    /// character.
    pub fn duplicate(&self) -> (r: FileName)
        ensures
            filename_equiv(r, *self),
    {
        FileName {
            file_name: self.file_name.clone(),
            parent_mft_entry_id: self.parent_mft_entry_id,
            parent_sequence: self.parent_sequence,
            creation_time: self.creation_time,
            modification_time: self.modification_time,
            mft_modification_time: self.mft_modification_time,
            accessed_time: self.accessed_time,
            allocated_size: self.allocated_size,
            real_size: self.real_size,
            flags: self.flags,
            reparse_value: self.reparse_value,
            name_length: self.name_length,
            name_space: self.name_space,
        }
    }

    /// Decodes a FileName content: the 66-byte header followed by the
    /// UTF-16LE name. Succeeds exactly when the header fits, the namespace
    /// byte is known, and the name fits the content.
    pub fn new(content: &VFile) -> (r: Result<FileName, NtfsError>)
        requires
            content.wf(),
        ensures
            ({
                let s = content@;
                match r {
                    Ok(fname) => s.len() >= 66 && spec_namespace_of(s[65]) is Some && 66 + 2 * s[64]
                        <= s.len() && spec_filename_fields(s, fname),
                    Err(e) => {
                        if s.len() < 66 {
                            e == NtfsError::ReadOutOfBounds
                        } else if spec_namespace_of(s[65]) is None {
                            e == NtfsError::MftAttributeUnknownNameSpace(s[65])
                        } else if 66 + 2 * s[64] > s.len() {
                            e == NtfsError::MftAttributeNameSpaceInvalidSize
                        } else {
                            false
                        }
                    },
                }
            }),
    {
        let ghost s = content@;
        let data = match content.read_exact(0, 66) {
            Ok(d) => d,
            Err(e) => {
                return Err(e);
            },
        };
        proof {
            assert(data@.subrange(0, 6) =~= s.subrange(0, 6));
            assert(data@.subrange(6, 8) =~= s.subrange(6, 8));
            assert(data@.subrange(8, 16) =~= s.subrange(8, 16));
            assert(data@.subrange(16, 24) =~= s.subrange(16, 24));
            assert(data@.subrange(24, 32) =~= s.subrange(24, 32));
            assert(data@.subrange(32, 40) =~= s.subrange(32, 40));
            assert(data@.subrange(40, 48) =~= s.subrange(40, 48));
            assert(data@.subrange(48, 56) =~= s.subrange(48, 56));
            assert(data@.subrange(56, 60) =~= s.subrange(56, 60));
            assert(data@.subrange(60, 64) =~= s.subrange(60, 64));
            assert(data@[64] == s[64]);
            assert(data@[65] == s[65]);
        }
        let parent_mft_entry_id = read_u48_at(&data, 0);
        let parent_sequence = read_u16_at(&data, 6);
        let creation_time = Timestamp { filetime: read_u64_at(&data, 8) };
        let modification_time = Timestamp { filetime: read_u64_at(&data, 16) };
        let mft_modification_time = Timestamp { filetime: read_u64_at(&data, 24) };
        let accessed_time = Timestamp { filetime: read_u64_at(&data, 32) };
        let allocated_size = read_u64_at(&data, 40);
        let real_size = read_u64_at(&data, 48);
        let flags = FileAttributes::from_bits_truncate(read_u32_at(&data, 56));
        let reparse_value = read_u32_at(&data, 60);
        let name_length = data[64];

        let name_space = match NameSpace::from_u8(data[65]) {
            Some(ns) => ns,
            None => {
                return Err(NtfsError::MftAttributeUnknownNameSpace(data[65]));
            },
        };

        let size = content.size();
        if name_length as u64 * 2 > size - 66 {
            return Err(NtfsError::MftAttributeNameSpaceInvalidSize);
        }

        let nb = match content.read_exact(66, 2 * name_length as usize) {
            Ok(d) => d,
            Err(_) => {
                proof {
                    assert(false);
                }
                return Err(NtfsError::ReadOutOfBounds);
            },
        };
        let units = utf16_units(&nb);
        let file_name = utf16_to_string(&units);

        Ok(
            FileName {
                file_name,
                parent_mft_entry_id,
                parent_sequence,
                creation_time,
                modification_time,
                mft_modification_time,
                accessed_time,
                allocated_size,
                real_size,
                flags,
                reparse_value,
                name_length,
                name_space,
            },
        )
    }
}

} // verus!
