//! Boot-sector parsing and validation.
//!
//! The first 512 bytes of the volume carry the BIOS parameter block. The
//! parser validates the 0xAA55 trailer and the geometry fields, then derives
//! the cluster size and the MFT and index record sizes. A record-size field
//! that is positive counts clusters; a negative one encodes the record size
//! as a power of two.

use vstd::prelude::*;

use crate::bytes::le16_at;
use crate::bytes::le64_at;
use crate::bytes::pow2i;
use crate::bytes::pow2_u32;
use crate::bytes::read_i8_at;
use crate::bytes::read_u16_at;
use crate::bytes::read_u32_at;
use crate::bytes::read_u64_at;
use crate::bytes::sbyte;
use crate::error::BootField;
use crate::error::NtfsError;
use crate::vfile::VFile;

verus! {

/// The BIOS parameter block of an NTFS boot sector.
#[derive(Debug, Clone, Copy, PartialEq, Eq, Structural)]
pub struct BPB {
    pub bytes_per_sector: u16,
    pub sector_per_cluster: u8,
    pub media_descriptor: u8,
    pub total_sectors: u64,
    pub mft_logical_cluster_number: u64,
    pub mft_mirror_logical_cluster_number: u64,
    pub clusters_per_mft_record: i8,
    pub clusters_per_index_record: i8,
    pub volume_serial_number: u64,
    pub checksum: u32,
}

/// A validated boot sector with its derived sizes.
#[derive(Debug, Clone, Copy, PartialEq, Eq, Structural)]
pub struct BootSector {
    pub oem_id: u64,
    pub bpb: BPB,
    pub end_of_sector: u16,
    pub cluster_size: u32,
    pub mft_record_size: u32,
    pub index_record_size: u32,
}

/// The cluster size encoded by the first sector `s`: sectors per cluster
/// times bytes per sector.
pub open spec fn spec_cluster_size(s: Seq<u8>) -> int {
    s[0x0d] * le16_at(s, 0x0b)
}

/// The record size encoded by a clusters-per-record field: a positive count
/// is in clusters, a negative one is the exponent of a power of two.
pub open spec fn spec_record_size(cpr: int, cluster_size: int) -> int {
    if cpr > 0 {
        cpr * cluster_size
    } else {
        pow2i((-cpr) as nat)
    }
}

/// The first validation that the sector `s` fails, if any. The checks run
/// in the parser's order; a record-size exponent of 32 or more cannot be
/// represented and fails its field's check.
pub open spec fn spec_boot_error(s: Seq<u8>) -> Option<BootField> {
    if le16_at(s, 510) != 0xAA55 {
        Some(BootField::EndOfSector)
    } else if le16_at(s, 0x0b) == 0 || le16_at(s, 0x0b) % 512 != 0 {
        Some(BootField::BytesPerSector)
    } else if s[0x0d] == 0 {
        Some(BootField::SectorPerCluster)
    } else if le64_at(s, 0x28) == 0 {
        Some(BootField::TotalSectors)
    } else if le64_at(s, 0x30) > le64_at(s, 0x28) && le64_at(s, 0x38) > le64_at(s, 0x28) {
        Some(BootField::MftClusterNumber)
    } else if sbyte(s[0x40]) == 0 {
        Some(BootField::ClustersPerMftRecord)
    } else if sbyte(s[0x44]) == 0 {
        Some(BootField::ClustersPerIndexRecord)
    } else if sbyte(s[0x40]) < -31 {
        Some(BootField::ClustersPerMftRecord)
    } else if sbyte(s[0x44]) < -31 {
        Some(BootField::ClustersPerIndexRecord)
    } else {
        None
    }
}

/// The boot sector that a valid first sector `s` parses to.
pub open spec fn spec_boot_sector(s: Seq<u8>) -> BootSector {
    BootSector {
        oem_id: le64_at(s, 3) as u64,
        bpb: BPB {
            bytes_per_sector: le16_at(s, 0x0b) as u16,
            sector_per_cluster: s[0x0d],
            media_descriptor: s[0x15],
            total_sectors: le64_at(s, 0x28) as u64,
            mft_logical_cluster_number: le64_at(s, 0x30) as u64,
            mft_mirror_logical_cluster_number: le64_at(s, 0x38) as u64,
            clusters_per_mft_record: sbyte(s[0x40]) as i8,
            clusters_per_index_record: sbyte(s[0x44]) as i8,
            volume_serial_number: le64_at(s, 0x48) as u64,
            checksum: le32_at_spec(s),
        },
        end_of_sector: le16_at(s, 510) as u16,
        cluster_size: spec_cluster_size(s) as u32,
        mft_record_size: spec_record_size(sbyte(s[0x40]), spec_cluster_size(s)) as u32,
        index_record_size: spec_record_size(sbyte(s[0x44]), spec_cluster_size(s)) as u32,
    }
}

/// The checksum field at offset 0x50.
pub open spec fn le32_at_spec(s: Seq<u8>) -> u32 {
    crate::bytes::le32_at(s, 0x50) as u32
}

/// A boot sector that passes validation yields a geometry the MFT walker
/// can use: the sector size is a positive multiple of 512, and the record
/// size fits comfortably below 2^31.
pub proof fn lemma_boot_sector_usable(s: Seq<u8>)
    requires
        spec_boot_error(s) is None,
        s.len() >= 512,
    ensures
        spec_boot_sector(s).bpb.bytes_per_sector >= 512,
        spec_boot_sector(s).mft_record_size <= 0x8000_0000,
{
    crate::bytes::lemma_le_unsigned_bound(s.subrange(0x0b as int, 0x0d as int));
    assert(crate::bytes::pow256(2) == 65536) by {
        reveal_with_fuel(crate::bytes::pow256, 3);
    }
    assert(0 <= spec_cluster_size(s) <= 255 * 65535) by (nonlinear_arith)
        requires
            0 <= s[0x0d] <= 255,
            0 <= le16_at(s, 0x0b) < 65536,
    ;
    proof_record_size_bound(sbyte(s[0x40]), spec_cluster_size(s));
}

proof fn proof_record_size_bound(cpr: int, cluster_size: int)
    requires
        -31 <= cpr <= 127,
        cpr != 0,
        0 <= cluster_size <= 255 * 65535,
    ensures
        0 <= spec_record_size(cpr, cluster_size) <= 0x8000_0000,
{
    if cpr > 0 {
        assert(cpr * cluster_size <= 127 * (255 * 65535) && cpr * cluster_size >= 0)
            by (nonlinear_arith)
            requires
                0 < cpr <= 127,
                0 <= cluster_size <= 255 * 65535,
        ;
    } else {
        crate::bytes::lemma_pow2i_mono((-cpr) as nat, 31);
        crate::bytes::lemma_pow2i_pos((-cpr) as nat);
        assert(pow2i(31) == 0x8000_0000) by {
            reveal_with_fuel(pow2i, 33);
        }
    }
}

impl BootSector {
    /// Reads and validates the boot sector at the start of `volume`.
    /// Succeeds exactly when the volume holds at least 512 bytes and every
    /// field check of `spec_boot_error` passes; the error otherwise names
    /// what failed.
    pub fn from_file(volume: &VFile) -> (r: Result<BootSector, NtfsError>)
        requires
            volume.wf(),
        ensures
            match r {
                Ok(bs) => volume@.len() >= 512 && spec_boot_error(volume@.subrange(0, 512))
                    is None && bs == spec_boot_sector(volume@.subrange(0, 512)),
                Err(NtfsError::ReadOutOfBounds) => volume@.len() < 512,
                Err(NtfsError::BootSectorInvalid(f)) => volume@.len() >= 512 && spec_boot_error(
                    volume@.subrange(0, 512),
                ) == Some(f),
                Err(_) => false,
            },
    {
        let data = match volume.read_exact(0, 512) {
            Ok(d) => d,
            Err(e) => {
                return Err(e);
            },
        };
        let ghost s = volume@.subrange(0, 512);
        let oem_id = read_u64_at(&data, 3);
        let end_of_sector = read_u16_at(&data, 510);
        if end_of_sector != 0xAA55 {
            return Err(NtfsError::BootSectorInvalid(BootField::EndOfSector));
        }
        let bytes_per_sector = read_u16_at(&data, 0x0b);
        if bytes_per_sector == 0 || bytes_per_sector % 512 != 0 {
            return Err(NtfsError::BootSectorInvalid(BootField::BytesPerSector));
        }
        let sector_per_cluster = data[0x0d];
        if sector_per_cluster == 0 {
            return Err(NtfsError::BootSectorInvalid(BootField::SectorPerCluster));
        }
        let media_descriptor = data[0x15];
        let total_sectors = read_u64_at(&data, 0x28);
        if total_sectors == 0 {
            return Err(NtfsError::BootSectorInvalid(BootField::TotalSectors));
        }
        let mft_logical_cluster_number = read_u64_at(&data, 0x30);
        let mft_mirror_logical_cluster_number = read_u64_at(&data, 0x38);
        if mft_logical_cluster_number > total_sectors && mft_mirror_logical_cluster_number
            > total_sectors {
            return Err(NtfsError::BootSectorInvalid(BootField::MftClusterNumber));
        }
        let clusters_per_mft_record = read_i8_at(&data, 0x40);
        if clusters_per_mft_record == 0 {
            return Err(NtfsError::BootSectorInvalid(BootField::ClustersPerMftRecord));
        }
        let clusters_per_index_record = read_i8_at(&data, 0x44);
        if clusters_per_index_record == 0 {
            return Err(NtfsError::BootSectorInvalid(BootField::ClustersPerIndexRecord));
        }
        if clusters_per_mft_record < -31 {
            return Err(NtfsError::BootSectorInvalid(BootField::ClustersPerMftRecord));
        }
        if clusters_per_index_record < -31 {
            return Err(NtfsError::BootSectorInvalid(BootField::ClustersPerIndexRecord));
        }
        let volume_serial_number = read_u64_at(&data, 0x48);
        let checksum = read_u32_at(&data, 0x50);

        proof {
            assert((sector_per_cluster as int) * (bytes_per_sector as int) <= 255 * 65535)
                by (nonlinear_arith)
                requires
                    sector_per_cluster <= 255,
                    bytes_per_sector <= 65535,
            ;
        }
        let cluster_size: u32 = sector_per_cluster as u32 * bytes_per_sector as u32;

        let mft_record_size: u32 = if clusters_per_mft_record > 0 {
            proof {
                assert((clusters_per_mft_record as int) * (cluster_size as int) <= 127 * 16711425)
                    by (nonlinear_arith)
                    requires
                        0 < clusters_per_mft_record <= 127,
                        cluster_size <= 16711425,
                ;
            }
            clusters_per_mft_record as u32 * cluster_size
        } else {
            let sh = -(clusters_per_mft_record as i16);
            pow2_u32(sh as u8)
        };

        let index_record_size: u32 = if clusters_per_index_record > 0 {
            proof {
                assert((clusters_per_index_record as int) * (cluster_size as int) <= 127 * 16711425)
                    by (nonlinear_arith)
                    requires
                        0 < clusters_per_index_record <= 127,
                        cluster_size <= 16711425,
                ;
            }
            clusters_per_index_record as u32 * cluster_size
        } else {
            let sh = -(clusters_per_index_record as i16);
            pow2_u32(sh as u8)
        };

        let bpb = BPB {
            bytes_per_sector,
            sector_per_cluster,
            media_descriptor,
            total_sectors,
            mft_logical_cluster_number,
            mft_mirror_logical_cluster_number,
            clusters_per_mft_record,
            clusters_per_index_record,
            volume_serial_number,
            checksum,
        };

        Ok(
            BootSector {
                oem_id,
                bpb,
                end_of_sector,
                cluster_size,
                mft_record_size,
                index_record_size,
            },
        )
    }

    /// The number of bytes the boot-sector region spans: sixteen sectors.
    pub fn size(&self) -> (r: u64)
        ensures
            r == self.bpb.bytes_per_sector * 16,
    {
        self.bpb.bytes_per_sector as u64 * 16
    }

    /// A view of the boot-sector region: the first sixteen sectors of the
    /// volume. Fails when the volume is shorter than that.
    pub fn to_builder(&self, volume: &VFile) -> (r: Result<VFile, NtfsError>)
        requires
            volume.wf(),
        ensures
            match r {
                Ok(vf) => vf.wf() && self.bpb.bytes_per_sector * 16 <= volume@.len() && vf@
                    == volume@.subrange(0, self.bpb.bytes_per_sector * 16),
                Err(e) => e == NtfsError::ReadOutOfBounds && volume@.len()
                    < self.bpb.bytes_per_sector * 16,
            },
    {
        let len = self.size();
        if volume.size() < len {
            return Err(NtfsError::ReadOutOfBounds);
        }
        let mut vf = VFile::empty();
        vf.push(len, volume, 0);
        proof {
            assert(vf@ =~= volume@.subrange(0, self.bpb.bytes_per_sector * 16));
        }
        Ok(vf)
    }
}

} // verus!
