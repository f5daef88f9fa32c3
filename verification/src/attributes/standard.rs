//! The StandardInformation attribute: timestamps, DOS flags, versioning,
//! and — in its long form — ownership and quota fields.

use vstd::prelude::*;

use crate::attributes::FileAttributes;
use crate::attributes::FILE_ATTRIBUTE_ALL;
use crate::bytes::le32_at;
use crate::bytes::le64_at;
use crate::bytes::read_u32_at;
use crate::bytes::read_u64_at;
use crate::datetime::Timestamp;
use crate::error::NtfsError;
use crate::vfile::VFile;

verus! {

/// A decoded StandardInformation attribute. The short on-disk form is 48
/// bytes; the 72-byte form adds the owner, security, quota and USN fields,
/// which are `None` otherwise.
#[derive(Debug, Clone, Copy, PartialEq, Eq, Structural)]
pub struct StandardInformation {
    pub creation_time: Timestamp,
    pub altered_time: Timestamp,
    pub mft_altered_time: Timestamp,
    pub accessed_time: Timestamp,
    pub flags: FileAttributes,
    pub version_maximum_number: u32,
    pub version_number: u32,
    pub class_id: u32,
    pub owner_id: Option<u32>,
    pub security_id: Option<u32>,
    pub quota_charged: Option<u64>,
    pub usn: Option<u64>,
}

/// The fields of the 48-byte core of a StandardInformation content `s`.
pub open spec fn spec_standard_core(s: Seq<u8>, si: StandardInformation) -> bool {
    &&& si.creation_time == (Timestamp { filetime: le64_at(s, 0) as u64 })
    &&& si.altered_time == (Timestamp { filetime: le64_at(s, 8) as u64 })
    &&& si.mft_altered_time == (Timestamp { filetime: le64_at(s, 16) as u64 })
    &&& si.accessed_time == (Timestamp { filetime: le64_at(s, 24) as u64 })
    &&& si.flags.bits == le32_at(s, 32) as u32 & FILE_ATTRIBUTE_ALL
    &&& si.version_maximum_number == le32_at(s, 36)
    &&& si.version_number == le32_at(s, 40)
    &&& si.class_id == le32_at(s, 44)
}

impl StandardInformation {
    /// Decodes a StandardInformation content. Succeeds exactly on the two
    /// valid sizes, 48 and 72 bytes; the long form fills the optional
    /// fields.
    pub fn new(content: &VFile) -> (r: Result<StandardInformation, NtfsError>)
        requires
            content.wf(),
        ensures
            match r {
                Ok(si) => {
                    &&& (content@.len() == 48 || content@.len() == 72)
                    &&& spec_standard_core(content@, si)
                    &&& if content@.len() == 72 {
                        &&& si.owner_id == Some(le32_at(content@, 48) as u32)
                        &&& si.security_id == Some(le32_at(content@, 52) as u32)
                        &&& si.quota_charged == Some(le64_at(content@, 56) as u64)
                        &&& si.usn == Some(le64_at(content@, 64) as u64)
                    } else {
                        si.owner_id is None && si.security_id is None && si.quota_charged is None
                            && si.usn is None
                    }
                },
                Err(e) => e == NtfsError::MftAttributeStandardInvalidSize && content@.len() != 48
                    && content@.len() != 72,
            },
    {
        let size = content.size();
        if size != 48 && size != 72 {
            return Err(NtfsError::MftAttributeStandardInvalidSize);
        }
        let data = match content.read_exact(0, 48) {
            Ok(d) => d,
            Err(_) => {
                proof {
                    assert(false);
                }
                return Err(NtfsError::MftAttributeStandardInvalidSize);
            },
        };
        proof {
            assert(data@.subrange(0, 8) =~= content@.subrange(0, 8));
            assert(data@.subrange(8, 16) =~= content@.subrange(8, 16));
            assert(data@.subrange(16, 24) =~= content@.subrange(16, 24));
            assert(data@.subrange(24, 32) =~= content@.subrange(24, 32));
            assert(data@.subrange(32, 36) =~= content@.subrange(32, 36));
            assert(data@.subrange(36, 40) =~= content@.subrange(36, 40));
            assert(data@.subrange(40, 44) =~= content@.subrange(40, 44));
            assert(data@.subrange(44, 48) =~= content@.subrange(44, 48));
        }
        let creation_time = Timestamp { filetime: read_u64_at(&data, 0) };
        let altered_time = Timestamp { filetime: read_u64_at(&data, 8) };
        let mft_altered_time = Timestamp { filetime: read_u64_at(&data, 16) };
        let accessed_time = Timestamp { filetime: read_u64_at(&data, 24) };
        let flags = FileAttributes::from_bits_truncate(read_u32_at(&data, 32));
        let version_maximum_number = read_u32_at(&data, 36);
        let version_number = read_u32_at(&data, 40);
        let class_id = read_u32_at(&data, 44);

        if size == 72 {
            let ext = match content.read_exact(48, 24) {
                Ok(d) => d,
                Err(_) => {
                    proof {
                        assert(false);
                    }
                    return Err(NtfsError::MftAttributeStandardInvalidSize);
                },
            };
            proof {
                assert(ext@.subrange(0, 4) =~= content@.subrange(48, 52));
                assert(ext@.subrange(4, 8) =~= content@.subrange(52, 56));
                assert(ext@.subrange(8, 16) =~= content@.subrange(56, 64));
                assert(ext@.subrange(16, 24) =~= content@.subrange(64, 72));
            }
            let owner_id = Some(read_u32_at(&ext, 0));
            let security_id = Some(read_u32_at(&ext, 4));
            let quota_charged = Some(read_u64_at(&ext, 8));
            let usn = Some(read_u64_at(&ext, 16));
            Ok(
                StandardInformation {
                    creation_time,
                    altered_time,
                    mft_altered_time,
                    accessed_time,
                    flags,
                    version_maximum_number,
                    version_number,
                    class_id,
                    owner_id,
                    security_id,
                    quota_charged,
                    usn,
                },
            )
        } else {
            Ok(
                StandardInformation {
                    creation_time,
                    altered_time,
                    mft_altered_time,
                    accessed_time,
                    flags,
                    version_maximum_number,
                    version_number,
                    class_id,
                    owner_id: None,
                    security_id: None,
                    quota_charged: None,
                    usn: None,
                },
            )
        }
    }
}

} // verus!
