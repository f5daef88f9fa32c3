//! Error taxonomy of the parser.
//!
//! Per-entry and per-attribute failures are reported through these values and
//! skipped by the callers that walk the volume, so a single damaged record
//! never aborts a scan. `MftAttributesEnd` and `MftAttributeListEnd` are
//! sentinels that terminate iteration cleanly rather than genuine faults.

use vstd::prelude::*;

use crate::ntfsattributes::NtfsAttributeType;

verus! {

/// The boot-sector field on which validation failed.
#[derive(Debug, Clone, Copy, PartialEq, Eq, Structural)]
pub enum BootField {
    /// The 0xAA55 end-of-sector marker.
    EndOfSector,
    /// Bytes per sector: zero or not a multiple of 512.
    BytesPerSector,
    /// Sectors per cluster: zero.
    SectorPerCluster,
    /// Total sectors: zero.
    TotalSectors,
    /// Both MFT cluster numbers exceed the total sector count, or the MFT
    /// start offset does not fit in 64 bits.
    MftClusterNumber,
    /// Clusters per MFT record: zero, or a record size beyond 32 bits.
    ClustersPerMftRecord,
    /// Clusters per index record: zero, or a record size beyond 32 bits.
    ClustersPerIndexRecord,
}

#[derive(Debug, Clone, Copy, PartialEq, Eq, Structural)]
pub enum NtfsError {
    /// The MFT record size is zero.
    MftRecordSize,
    /// A non-resident attribute was asked for data without a volume source.
    NonResidentData,
    /// A boot-sector field failed validation.
    BootSectorInvalid(BootField),
    /// The MFT entry is unused (its used size is the 0xFFFFFFFF filler).
    MftUnusedEntry,
    /// The MFT record geometry is impossible: the record or its fixup array
    /// does not fit where the header says it lies.
    MftInvalidSignature,
    /// No attribute of the given type was found in the entry.
    MftAttributeNotFound(NtfsAttributeType),
    /// An attribute header carried a type code outside the known set.
    MftAttributeUnknownType(u32),
    /// Sentinel: the 0xFFFFFFFF terminator ends an entry's attribute stream.
    MftAttributesEnd,
    /// The attribute's resident flag was neither 0 nor 1.
    MftAttributeDataType,
    /// A FileName attribute carried a namespace byte outside 0..=3.
    MftAttributeUnknownNameSpace(u8),
    /// A FileName attribute's name length exceeds its content.
    MftAttributeNameSpaceInvalidSize,
    /// A StandardInformation attribute had an unsupported size.
    MftAttributeStandardInvalidSize,
    /// Sentinel: the 0xFFFFFFFF terminator ends an attribute list.
    MftAttributeListEnd,
    /// A resident attribute's content offset lies past its entry.
    ResidentAttributeOffsetTooLarge,
    /// A resident attribute's content runs past its entry.
    ResidentAttributeContentTooLarge,
    /// A non-resident run lies past the end of the volume.
    NonResidentAttributeOffsetTooLarge,
    /// A sparse non-resident attribute was asked for data without a zero
    /// source to fill its holes.
    NonResidentAttributeZeroBuilder,
    /// A non-resident attribute was asked for data without a cluster size.
    NonResidentAttributeClusterSize,
    /// A read reached past the end of a virtual file.
    ReadOutOfBounds,
}

} // verus!
