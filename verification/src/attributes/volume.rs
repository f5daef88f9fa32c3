//! The VolumeName and VolumeInformation attributes.

use vstd::prelude::*;

use crate::bytes::spec_utf16_units;
use crate::bytes::utf16_units;
use crate::error::NtfsError;
use crate::text::utf16_chars;
use crate::text::utf16_to_string;
use crate::vfile::VFile;

verus! {

/// The NTFS version carried by a VolumeInformation attribute.
#[derive(Debug, Clone, Copy, PartialEq, Eq, Structural)]
pub struct VolumeInformation {
    pub major: u8,
    pub minor: u8,
}

impl VolumeInformation {
    /// Reads the version numbers at offset 8 of the attribute content.
    /// Succeeds exactly when the content holds at least 12 bytes.
    pub fn new(content: &VFile) -> (r: Result<VolumeInformation, NtfsError>)
        requires
            content.wf(),
        ensures
            match r {
                Ok(vi) => content@.len() >= 12 && vi.major == content@[8] && vi.minor
                    == content@[9],
                Err(e) => e == NtfsError::ReadOutOfBounds && content@.len() < 12,
            },
    {
        let data = match content.read_exact(8, 4) {
            Ok(d) => d,
            Err(e) => {
                return Err(e);
            },
        };
        let major = data[0];
        let minor = data[1];
        Ok(VolumeInformation { major, minor })
    }
}

/// The volume's label, a VolumeName attribute.
#[derive(Debug, Clone, PartialEq, Eq)]
pub struct VolumeName {
    pub name: String,
}

impl VolumeName {
    /// Decodes the whole attribute content as a UTF-16LE label.
    pub fn new(content: &VFile) -> (r: Result<VolumeName, NtfsError>)
        requires
            content.wf(),
            content@.len() <= usize::MAX,
        ensures
            match r {
                Ok(vn) => vn.name@ == utf16_chars(spec_utf16_units(content@)),
                Err(_) => false,
            },
    {
        let size = content.size();
        let data = match content.read_exact(0, size as usize) {
            Ok(d) => d,
            Err(_) => {
                proof {
                    assert(false);
                }
                Vec::new()
            },
        };
        proof {
            assert(content@.subrange(0, content@.len() as int) =~= content@);
        }
        let units = utf16_units(&data);
        let name = utf16_to_string(&units);
        Ok(VolumeName { name })
    }
}

} // verus!
