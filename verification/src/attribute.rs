//! The common MFT attribute header and its parser.
//!
//! Every attribute of a FILE record starts with a 16-byte header: type
//! code, total length, residency flag, name size and offset, flags, and
//! id. The body that follows is resident or non-resident; an optional
//! UTF-16LE name sits at the header's name offset. The type code
//! 0xFFFFFFFF is the terminator of an entry's attribute stream.

use vstd::prelude::*;

use crate::attributecontent::NonResident;
use crate::attributecontent::Resident;
use crate::attributecontent::ResidentType;
use crate::bytes::le16_at;
use crate::bytes::le32_at;
use crate::bytes::le64_at;
use crate::bytes::read_u16_at;
use crate::bytes::read_u32_at;
use crate::bytes::spec_utf16_units;
use crate::bytes::utf16_units;
use crate::error::NtfsError;
use crate::ntfsattributes::spec_attribute_type_of;
use crate::ntfsattributes::NtfsAttributeType;
use crate::runlist::spec_decode_runs;
use crate::text::utf16_chars;
use crate::text::utf16_to_string;
use crate::vfile::VFile;

verus! {

/// A parsed attribute: the common header, the optional name, and the
/// resident or non-resident body.
#[derive(Debug, Clone, PartialEq, Eq)]
pub struct MftAttribute {
    pub type_id: NtfsAttributeType,
    pub length: u32,
    pub non_resident_flag: u8,
    pub name_size: u8,
    pub name_offset: u16,
    pub flags: u16,
    pub id: u16,
    pub name: Option<String>,
    pub data: ResidentType,
}

/// The run-list offset field of a non-resident attribute at `off`.
pub open spec fn spec_attr_rlo(s: Seq<u8>, off: int) -> int {
    le16_at(s, off + 32)
}

/// Whether the attribute at `off` parses without error: the header fits,
/// the type code is known and not the terminator, the residency flag is 0
/// or 1, the body and its run list fit and decode, and the name fits.
pub open spec fn spec_attr_ok(s: Seq<u8>, off: int) -> bool {
    &&& off + 16 <= s.len()
    &&& le32_at(s, off) != 0xffffffff
    &&& spec_attribute_type_of(le32_at(s, off) as u32) is Some
    &&& (s[off + 8] == 0 || s[off + 8] == 1)
    &&& (s[off + 8] == 0 ==> off + 22 <= s.len())
    &&& (s[off + 8] == 1 ==> off + 64 <= s.len() && off + spec_attr_rlo(s, off) <= s.len()
        && spec_decode_runs(s, off + spec_attr_rlo(s, off), 0) is Some)
    &&& (s[off + 9] > 0 ==> off + le16_at(s, off + 10) + 2 * s[off + 9] <= s.len())
}

/// Which error the attribute parse at `off` reports, in check order. A
/// failing run-list decode reports either a short read or an offset
/// accumulator out of range.
pub open spec fn spec_attr_err_matches(s: Seq<u8>, off: int, e: NtfsError) -> bool {
    if off + 16 > s.len() {
        e == NtfsError::ReadOutOfBounds
    } else if le32_at(s, off) == 0xffffffff {
        e == NtfsError::MftAttributesEnd
    } else if spec_attribute_type_of(le32_at(s, off) as u32) is None {
        e == NtfsError::MftAttributeUnknownType(le32_at(s, off) as u32)
    } else if s[off + 8] != 0 && s[off + 8] != 1 {
        e == NtfsError::MftAttributeDataType
    } else if s[off + 8] == 0 && off + 22 > s.len() {
        e == NtfsError::ReadOutOfBounds
    } else if s[off + 8] == 1 && off + 64 > s.len() {
        e == NtfsError::ReadOutOfBounds
    } else if s[off + 8] == 1 && off + spec_attr_rlo(s, off) > s.len() {
        e == NtfsError::ReadOutOfBounds
    } else if s[off + 8] == 1 && spec_decode_runs(s, off + spec_attr_rlo(s, off), 0) is None {
        e == NtfsError::ReadOutOfBounds || e == NtfsError::NonResidentAttributeOffsetTooLarge
    } else if s[off + 9] > 0 && off + le16_at(s, off + 10) + 2 * s[off + 9] > s.len() {
        e == NtfsError::ReadOutOfBounds
    } else {
        false
    }
}

/// The header and body fields that a successful parse at `off` carries.
pub open spec fn spec_attr_fields(s: Seq<u8>, off: int, a: MftAttribute) -> bool {
    &&& Some(a.type_id) == spec_attribute_type_of(le32_at(s, off) as u32)
    &&& a.length == le32_at(s, off + 4)
    &&& a.non_resident_flag == s[off + 8]
    &&& a.name_size == s[off + 9]
    &&& a.name_offset == le16_at(s, off + 10)
    &&& a.flags == le16_at(s, off + 12)
    &&& a.id == le16_at(s, off + 14)
    &&& (a.non_resident_flag == 0 ==> a.data == ResidentType::Resident(
        Resident {
            content_size: le32_at(s, off + 16) as u32,
            content_offset: le16_at(s, off + 20) as u16,
        },
    ))
    &&& (a.non_resident_flag == 1 ==> (a.data matches ResidentType::NonResident(nr)
        && spec_non_resident_fields(s, off, nr)))
    &&& if a.name_size == 0 {
        a.name is None
    } else {
        a.name matches Some(nm) && nm@ == utf16_chars(
            spec_utf16_units(
                s.subrange(off + le16_at(s, off + 10), off + le16_at(s, off + 10) + 2 * s[off + 9]),
            ),
        )
    }
}

/// The body fields of a non-resident attribute at `off`.
pub open spec fn spec_non_resident_fields(s: Seq<u8>, off: int, nr: NonResident) -> bool {
    &&& nr.vnc_start == le64_at(s, off + 16)
    &&& nr.vnc_end == le64_at(s, off + 24)
    &&& nr.run_list_offset == le16_at(s, off + 32)
    &&& nr.compression_block_size == le16_at(s, off + 34)
    &&& nr.unused == le32_at(s, off + 36)
    &&& nr.content_allocated_size == le64_at(s, off + 40)
    &&& nr.content_actual_size == le64_at(s, off + 48)
    &&& nr.content_initialized_size == le64_at(s, off + 56)
    &&& Some(nr.runs@) == spec_decode_runs(s, off + spec_attr_rlo(s, off), 0)
}

impl MftAttribute {
    /// Parses the attribute that starts at byte `offset` of the (fixed-up)
    /// entry file. Succeeds exactly when `spec_attr_ok` holds there; the
    /// terminator type code reports the sentinel `MftAttributesEnd`.
    pub fn from_file(file: &VFile, offset: u32) -> (r: Result<MftAttribute, NtfsError>)
        requires
            file.wf(),
            file@.len() + 64 <= usize::MAX,
        ensures
            match r {
                Ok(a) => spec_attr_ok(file@, offset as int) && spec_attr_fields(
                    file@,
                    offset as int,
                    a,
                ),
                Err(e) => !spec_attr_ok(file@, offset as int) && spec_attr_err_matches(
                    file@,
                    offset as int,
                    e,
                ),
            },
    {
        let ghost s = file@;
        let ghost off = offset as int;
        let hd = match file.read_exact(offset as u64, 16) {
            Ok(d) => d,
            Err(e) => {
                return Err(e);
            },
        };
        proof {
            assert(hd@.subrange(0, 4) =~= s.subrange(off, off + 4));
            assert(hd@.subrange(4, 8) =~= s.subrange(off + 4, off + 8));
            assert(hd@.subrange(10, 12) =~= s.subrange(off + 10, off + 12));
            assert(hd@.subrange(12, 14) =~= s.subrange(off + 12, off + 14));
            assert(hd@.subrange(14, 16) =~= s.subrange(off + 14, off + 16));
        }
        let raw_type = read_u32_at(&hd, 0);
        if raw_type == 0xffffffff {
            return Err(NtfsError::MftAttributesEnd);
        }
        let type_id = match NtfsAttributeType::from_u32(raw_type) {
            Some(t) => t,
            None => {
                return Err(NtfsError::MftAttributeUnknownType(raw_type));
            },
        };
        let length = read_u32_at(&hd, 4);
        let non_resident_flag = hd[8];
        let name_size = hd[9];
        let name_offset = read_u16_at(&hd, 10);
        let flags = read_u16_at(&hd, 12);
        let id = read_u16_at(&hd, 14);
        proof {
            assert(hd@[8] == s[off + 8]);
            assert(hd@[9] == s[off + 9]);
        }

        let data = if non_resident_flag == 0 {
            match Resident::from_file(file, offset as u64) {
                Ok(res) => ResidentType::Resident(res),
                Err(e) => {
                    return Err(e);
                },
            }
        } else if non_resident_flag == 1 {
            match NonResident::from_file(file, offset as u64) {
                Ok(nr) => ResidentType::NonResident(nr),
                Err(e) => {
                    return Err(e);
                },
            }
        } else {
            return Err(NtfsError::MftAttributeDataType);
        };

        let name = if name_size == 0 {
            None
        } else {
            let name_start = offset as u64 + name_offset as u64;
            let nb = match file.read_exact(name_start, 2 * name_size as usize) {
                Ok(d) => d,
                Err(e) => {
                    return Err(e);
                },
            };
            let units = utf16_units(&nb);
            Some(utf16_to_string(&units))
        };

        Ok(
            MftAttribute {
                type_id,
                length,
                non_resident_flag,
                name_size,
                name_offset,
                flags,
                id,
                name,
                data,
            },
        )
    }

    /// Compressed contents: bit 0 of the flags, meaningful only for a
    /// non-resident attribute.
    pub fn is_compressed(&self) -> (r: bool)
        ensures
            r == (self.data matches ResidentType::NonResident(_) && self.flags & 0x0001 == 0x0001),
    {
        match self.data {
            ResidentType::Resident(_) => false,
            ResidentType::NonResident(_) => (self.flags & 0x0001) == 0x0001,
        }
    }

    /// Encrypted contents: bit 14 of the flags, meaningful only for a
    /// non-resident attribute.
    pub fn is_encrypted(&self) -> (r: bool)
        ensures
            r == (self.data matches ResidentType::NonResident(_) && self.flags & 0x4000 == 0x4000),
    {
        match self.data {
            ResidentType::Resident(_) => false,
            ResidentType::NonResident(_) => (self.flags & 0x4000) == 0x4000,
        }
    }

    /// Sparse contents: bit 15 of the flags, meaningful only for a
    /// non-resident attribute.
    pub fn is_sparse(&self) -> (r: bool)
        ensures
            r == (self.data matches ResidentType::NonResident(_) && self.flags & 0x8000 == 0x8000),
    {
        match self.data {
            ResidentType::Resident(_) => false,
            ResidentType::NonResident(_) => (self.flags & 0x8000) == 0x8000,
        }
    }
}

} // verus!
