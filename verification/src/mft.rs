//! The Master File Table: entry 0 describes the MFT itself, so the table
//! is bootstrapped by parsing that record against the volume, extracting
//! its Data stream, and caching the whole MFT in memory for indexed
//! access to every other record.

use vstd::prelude::*;

use crate::error::NtfsError;
use crate::mftentry::MftEntry;
use crate::vfile::VFile;

verus! {

/// Indexed access to the records of a volume's Master File Table.
#[derive(Debug)]
pub struct MftEntries {
    pub partition_builder: Option<VFile>,
    pub zero_builder: Option<VFile>,
    pub mft_record_size: u32,
    pub sector_size: u16,
    pub cluster_size: Option<u32>,
    pub master_mft_builder: VFile,
    pub number_of_entry: u64,
    pub master_mft_entry: Option<MftEntry>,
}

/// The sector size the table uses: the given one, or 512.
pub open spec fn spec_sector_size_choice(sector_size: Option<u16>) -> u16 {
    match sector_size {
        Some(x) => x,
        None => 512,
    }
}

/// The record size the table uses: the given one, or the allocated-size
/// field of the record at offset 0 of the MFT stream.
pub open spec fn spec_record_size_choice(s: Seq<u8>, mft_record_size: Option<u32>) -> u32 {
    match mft_record_size {
        Some(x) => x,
        None => crate::bytes::le32_at(s, 28) as u32,
    }
}

impl MftEntries {
    /// The sources are well formed, the geometry is usable, and the entry
    /// count matches the cached MFT size.
    pub open spec fn wf(&self) -> bool {
        &&& self.master_mft_builder.wf()
        &&& (self.partition_builder matches Some(p) ==> p.wf())
        &&& (self.zero_builder matches Some(z) ==> z.wf() && z@.len() == u64::MAX && forall|i: int|
            0 <= i < z@.len() ==> z@[i] == 0)
        &&& self.mft_record_size > 0
        &&& self.mft_record_size + 64 <= usize::MAX
        &&& self.sector_size > 2
        &&& self.number_of_entry == self.master_mft_builder@.len() as int / (self.mft_record_size as int)
        &&& (self.master_mft_entry matches Some(e) ==> e.wf())
    }

    /// Bootstraps the table from a volume: parses entry 0 at the MFT start
    /// cluster, extracts its Data stream — the MFT itself — and caches it
    /// in memory.
    pub fn from_partition(
        partition_builder: &VFile,
        mft_logical_cluster_number: u64,
        cluster_size: u32,
        sector_size: u16,
        mft_record_size: u32,
    ) -> (r: Result<MftEntries, NtfsError>)
        requires
            partition_builder.wf(),
            sector_size > 2,
            mft_record_size + 64 <= usize::MAX,
        ensures
            r matches Ok(m) ==> m.wf() && m.mft_record_size == mft_record_size && m.sector_size
                == sector_size && m.cluster_size == Some(cluster_size) && (m.partition_builder
                matches Some(p) && p@ == partition_builder@),
            // Entry 0 was parsed at the MFT start cluster of the volume.
            r matches Ok(m) ==> (m.master_mft_entry matches Some(master) && {
                &&& mft_logical_cluster_number * cluster_size <= u64::MAX
                &&& master.offset == mft_logical_cluster_number * cluster_size
                &&& master.record_size == mft_record_size
                &&& master.sector_size == sector_size
                &&& master.cluster_size == Some(cluster_size)
                &&& crate::mftentry::spec_record_parse_ok(
                    partition_builder@,
                    master.offset as int,
                    mft_record_size as int,
                    sector_size as int,
                )
                &&& crate::mftentry::spec_entry_fields(
                    partition_builder@,
                    master.offset as int,
                    master,
                )
            }),
            // The cache really is in memory, and the count follows its size.
            r matches Ok(m) ==> m.master_mft_builder@.len() <= usize::MAX && m.number_of_entry
                == m.master_mft_builder@.len() as int / (mft_record_size as int),
            // The cached MFT is the stream of the first Data attribute that
            // entry 0 decodes to.
            r matches Ok(m) ==> (m.master_mft_entry matches Some(master) && master.mft_builder@
                == partition_builder@ && exists|
                attrs: Seq<crate::ntfsattributes::NtfsAttribute>,
                cs: Seq<crate::attributecontent::MftAttributeContent>,
            |
                {
                    &&& #[trigger] crate::mftentry::spec_dispatched_all(cs, attrs)
                    &&& crate::mftentry::spec_contents_prefix(
                        &master,
                        master.spec_entry_bytes(),
                        cs,
                    )
                    &&& crate::mftentry::spec_contents_stop(&master, master.spec_entry_bytes(), cs)
                    &&& exists|j: int|
                        #[trigger] crate::mftentry::spec_first_data(attrs, j) && (attrs[j] matches
                        crate::ntfsattributes::NtfsAttribute::Data(c)
                            && crate::attributecontent::spec_stream_of(&c) == Some(
                            m.master_mft_builder@,
                        ))
                }),
            r == Err::<MftEntries, NtfsError>(NtfsError::MftRecordSize) <==> mft_record_size == 0,
    {
        if mft_record_size == 0 {
            return Err(NtfsError::MftRecordSize);
        }
        let master_mft_offset = match mft_logical_cluster_number.checked_mul(cluster_size as u64) {
            Some(v) => v,
            None => {
                return Err(NtfsError::ReadOutOfBounds);
            },
        };
        let zero_builder = VFile::zero();
        let master_mft_entry = match MftEntry::from_offset(
            master_mft_offset,
            Some(partition_builder.duplicate()),
            partition_builder.duplicate(),
            Some(zero_builder.duplicate()),
            mft_record_size,
            sector_size,
            Some(cluster_size),
        ) {
            Ok(e) => e,
            Err(e) => {
                return Err(e);
            },
        };
        let master_stream = match master_mft_entry.data_attribute() {
            Ok(vf) => vf,
            Err(e) => {
                return Err(e);
            },
        };
        // The whole MFT is cached in one buffer for O(1) record access.
        let master_mft_builder = match master_stream.to_memory() {
            Ok(m) => m,
            Err(e) => {
                return Err(e);
            },
        };
        let number_of_entry = master_mft_builder.size() / mft_record_size as u64;
        Ok(
            MftEntries {
                partition_builder: Some(partition_builder.duplicate()),
                zero_builder: Some(zero_builder),
                mft_record_size,
                sector_size,
                cluster_size: Some(cluster_size),
                master_mft_builder,
                number_of_entry,
                master_mft_entry: Some(master_mft_entry),
            },
        )
    }

    /// Builds the table directly from an already-extracted MFT stream,
    /// guessing the record size from entry 0 when none is given. Without a
    /// volume the table serves resident attributes only.
    pub fn from_master_mft(
        master_mft_builder: &VFile,
        sector_size: Option<u16>,
        mft_record_size: Option<u32>,
    ) -> (r: Result<MftEntries, NtfsError>)
        requires
            master_mft_builder.wf(),
            sector_size matches Some(x) ==> x > 2,
        ensures
            ({
                let s = master_mft_builder@;
                let ss = spec_sector_size_choice(sector_size);
                let rs = spec_record_size_choice(s, mft_record_size);
                match r {
                    Ok(m) => {
                        &&& m.wf()
                        &&& m.partition_builder is None
                        &&& m.zero_builder is None
                        &&& m.cluster_size is None
                        // The record size is the given one, or entry 0's
                        // allocated size; the sector size defaults to 512.
                        &&& m.mft_record_size == rs
                        &&& m.sector_size == ss
                        &&& m.master_mft_builder@ == s
                        &&& s.len() <= usize::MAX
                        &&& m.number_of_entry == s.len() as int / (rs as int)
                        &&& m.master_mft_entry is None
                        &&& rs != 0
                        &&& rs + 64 <= usize::MAX
                        &&& (mft_record_size is None ==> crate::mftentry::spec_record_parse_ok(
                            s,
                            0,
                            4096,
                            ss as int,
                        ))
                    },
                    Err(e) => {
                        if s.len() > usize::MAX {
                            e == NtfsError::ReadOutOfBounds
                        } else if mft_record_size is None
                            && !crate::mftentry::spec_record_parse_ok(s, 0, 4096, ss as int) {
                            e == crate::mftentry::spec_record_parse_err(s, 0, 4096, ss as int)
                        } else {
                            e == NtfsError::MftRecordSize && (rs == 0 || rs + 64 > usize::MAX)
                        }
                    },
                }
            }),
    {
        let cached = match master_mft_builder.to_memory() {
            Ok(m) => m,
            Err(e) => {
                return Err(e);
            },
        };
        let sector_size = match sector_size {
            Some(x) => x,
            None => 512,
        };
        let record_size: u32 = match mft_record_size {
            Some(x) => x,
            None => {
                match MftEntry::from_offset(
                    0,
                    None,
                    cached.duplicate(),
                    Some(VFile::zero()),
                    4096,
                    sector_size,
                    Some(4096),
                ) {
                    Ok(e) => e.allocated_size,
                    Err(e) => {
                        return Err(e);
                    },
                }
            },
        };
        if record_size == 0 {
            return Err(NtfsError::MftRecordSize);
        }
        if record_size as u64 + 64 > usize::MAX as u64 {
            return Err(NtfsError::MftRecordSize);
        }
        let number_of_entry = cached.size() / record_size as u64;
        Ok(
            MftEntries {
                partition_builder: None,
                zero_builder: None,
                mft_record_size: record_size,
                sector_size,
                cluster_size: None,
                master_mft_builder: cached,
                number_of_entry,
                master_mft_entry: None,
            },
        )
    }

    /// The number of records the MFT holds.
    pub fn count(&self) -> (r: u64)
        ensures
            r == self.number_of_entry,
    {
        self.number_of_entry
    }

    /// The node of entry 0, the MFT itself, when the table was
    /// bootstrapped from a volume: the first node that entry derives to.
    pub fn master_mft(&self) -> (r: Option<crate::ntfs::NtfsNode>)
        requires
            self.wf(),
        ensures
            r is Some <==> self.master_mft_entry is Some,
            (match (self.master_mft_entry, r) {
                (Some(master), Some(node)) => exists|nodes: Seq<crate::ntfs::NtfsNode>|
                    #[trigger] crate::ntfs::spec_entry_nodes(self, 0, &master, nodes)
                        && nodes.len() >= 1 && node == nodes[0],
                (None, None) => true,
                _ => false,
            }),
    {
        match &self.master_mft_entry {
            Some(master) => {
                let mut nodes = crate::ntfs::NtfsNode::from_entry(0, master, self);
                if nodes.len() > 0 {
                    Some(nodes.remove(0))
                } else {
                    None
                }
            },
            None => None,
        }
    }

    /// Reads record `entry_id` from the cached MFT: exactly a record parse
    /// at `entry_id * mft_record_size` against the cached bytes, with the
    /// table's geometry and stream sources. Fails on an offset beyond
    /// 64 bits, and otherwise exactly when that record does not parse;
    /// the table itself is untouched.
    pub fn entry(&self, entry_id: u64) -> (r: Result<MftEntry, NtfsError>)
        requires
            self.wf(),
        ensures
            ({
                let s = self.master_mft_builder@;
                let off = entry_id * self.mft_record_size;
                let rs = self.mft_record_size as int;
                let ss = self.sector_size as int;
                match r {
                    Ok(e) => {
                        &&& off <= u64::MAX
                        &&& crate::mftentry::spec_record_parse_ok(s, off, rs, ss)
                        &&& e.wf()
                        &&& e.mft_builder@ == s
                        &&& crate::mftentry::spec_entry_fields(s, off, e)
                        &&& e.record_size == self.mft_record_size
                        &&& e.sector_size == self.sector_size
                        &&& e.cluster_size == self.cluster_size
                        &&& (e.partition_builder is Some <==> self.partition_builder is Some)
                        &&& (self.partition_builder matches Some(p) ==> (e.partition_builder
                            matches Some(q) && q@ == p@))
                        &&& (e.zero_builder is Some <==> self.zero_builder is Some)
                    },
                    Err(e) => {
                        if off > u64::MAX {
                            e == NtfsError::ReadOutOfBounds
                        } else {
                            !crate::mftentry::spec_record_parse_ok(s, off, rs, ss) && e
                                == crate::mftentry::spec_record_parse_err(s, off, rs, ss)
                        }
                    },
                }
            }),
    {
        let offset = match entry_id.checked_mul(self.mft_record_size as u64) {
            Some(v) => v,
            None => {
                return Err(NtfsError::ReadOutOfBounds);
            },
        };
        MftEntry::from_offset(
            offset,
            match &self.partition_builder {
                Some(p) => Some(p.duplicate()),
                None => None,
            },
            self.master_mft_builder.duplicate(),
            match &self.zero_builder {
                Some(z) => Some(z.duplicate()),
                None => None,
            },
            self.mft_record_size,
            self.sector_size,
            self.cluster_size,
        )
    }
}

} // verus!
