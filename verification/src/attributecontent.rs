//! Attribute bodies: resident and non-resident, and the stream builders
//! that materialize an attribute's content as a virtual file.

use vstd::prelude::*;

use crate::bytes::le16_at;
use crate::bytes::le32_at;
use crate::bytes::le_signed;
use crate::bytes::le_unsigned;
use crate::bytes::read_int_at;
use crate::bytes::read_u16_at;
use crate::bytes::read_u32_at;
use crate::bytes::read_u64_at;
use crate::bytes::read_uint_at;
use crate::error::NtfsError;
use crate::runlist::decode_runs;
use crate::runlist::lemma_decode_shift;
use crate::runlist::spec_decode_runs;
use crate::vfile::VFile;

verus! {

/// Reads up to eight bytes as a little-endian unsigned integer,
/// zero-extended to 64 bits.
pub fn pad_u64(data: &Vec<u8>) -> (r: u64)
    requires
        data.len() <= 8,
    ensures
        r == le_unsigned(data@),
{
    let r = read_uint_at(data, 0, data.len());
    proof {
        assert(data@.subrange(0, data@.len() as int) =~= data@);
    }
    r
}

/// Reads up to eight bytes as a little-endian signed integer,
/// sign-extended to 64 bits.
pub fn pad_i64(data: &Vec<u8>) -> (r: i64)
    requires
        1 <= data.len() <= 8,
    ensures
        r == le_signed(data@),
{
    let r = read_int_at(data, 0, data.len());
    proof {
        assert(data@.subrange(0, data@.len() as int) =~= data@);
    }
    r
}

/// One cluster run of a non-resident attribute. An offset of zero denotes a
/// sparse hole; any other offset is an absolute logical cluster number,
/// accumulated from the signed deltas of the on-disk encoding.
#[derive(Debug, Clone, Copy, PartialEq, Eq, Structural)]
pub struct RunList {
    pub offset: i64,
    pub length: u64,
}

/// The body of a resident attribute: its content lives inside the entry,
/// `content_offset` bytes from the attribute header's start.
#[derive(Debug, Clone, Copy, PartialEq, Eq, Structural)]
pub struct Resident {
    pub content_size: u32,
    pub content_offset: u16,
}

/// The body of a non-resident attribute: the logical cluster window and the
/// decoded run list that holds its content.
#[derive(Debug, Clone, PartialEq, Eq)]
pub struct NonResident {
    pub vnc_start: u64,
    pub vnc_end: u64,
    pub run_list_offset: u16,
    pub compression_block_size: u16,
    pub unused: u32,
    pub content_allocated_size: u64,
    pub content_actual_size: u64,
    pub content_initialized_size: u64,
    pub runs: Vec<RunList>,
}

/// An attribute body is either resident or non-resident.
#[derive(Debug, Clone, PartialEq, Eq)]
pub enum ResidentType {
    Resident(Resident),
    NonResident(NonResident),
}

/// `n` zero bytes: what a sparse hole reads as.
pub open spec fn zero_seq(n: int) -> Seq<u8> {
    Seq::new(n as nat, |i: int| 0u8)
}

/// The bytes one run contributes to a non-resident stream: a sparse run
/// reads as zeros, any other run reads the volume at its cluster offset.
pub open spec fn run_bytes(run: RunList, vol: Seq<u8>, cs: int) -> Seq<u8> {
    if run.offset == 0 {
        zero_seq(run.length * cs)
    } else {
        vol.subrange(run.offset * cs, run.offset * cs + run.length * cs)
    }
}

/// The concatenated bytes of a run list against the volume.
pub open spec fn spec_runs_bytes(runs: Seq<RunList>, vol: Seq<u8>, cs: int) -> Seq<u8>
    decreases runs.len(),
{
    if runs.len() == 0 {
        Seq::empty()
    } else {
        spec_runs_bytes(runs.drop_last(), vol, cs) + run_bytes(runs.last(), vol, cs)
    }
}

/// The total stream length of a run list: the sum of the run lengths in
/// clusters, scaled by the cluster size.
pub open spec fn runs_total(runs: Seq<RunList>, cs: int) -> int
    decreases runs.len(),
{
    if runs.len() == 0 {
        0
    } else {
        runs_total(runs.drop_last(), cs) + runs.last().length * cs
    }
}

/// Every non-sparse run lies inside the volume.
pub open spec fn runs_mappable(runs: Seq<RunList>, vol_len: int, cs: int) -> bool {
    forall|k: int|
        0 <= k < runs.len() ==> ((#[trigger] runs[k]).offset != 0 ==> 0 <= runs[k].offset
            && runs[k].offset * cs + runs[k].length * cs <= vol_len)
}

/// A mappable run list concatenates to its total length.
pub proof fn lemma_runs_bytes_len(runs: Seq<RunList>, vol: Seq<u8>, cs: int)
    requires
        cs >= 0,
        runs_mappable(runs, vol.len() as int, cs),
    ensures
        spec_runs_bytes(runs, vol, cs).len() == runs_total(runs, cs),
        runs_total(runs, cs) >= 0,
    decreases runs.len(),
{
    if runs.len() > 0 {
        assert(runs_mappable(runs.drop_last(), vol.len() as int, cs)) by {
            assert(forall|k: int|
                0 <= k < runs.len() - 1 ==> runs.drop_last()[k] == #[trigger] runs[k]);
        }
        lemma_runs_bytes_len(runs.drop_last(), vol, cs);
        let last = runs.last();
        assert(last.length * cs >= 0) by (nonlinear_arith)
            requires
                last.length >= 0,
                cs >= 0,
        ;
        if last.offset != 0 {
            assert(last.offset * cs >= 0) by (nonlinear_arith)
                requires
                    last.offset >= 0,
                    cs >= 0,
            ;
        }
    }
}

/// Totals only grow as runs are appended.
proof fn lemma_runs_total_prefix(runs: Seq<RunList>, k: int, cs: int)
    requires
        0 <= k <= runs.len(),
        cs >= 0,
    ensures
        runs_total(runs.take(k), cs) <= runs_total(runs, cs),
    decreases runs.len() - k,
{
    if k < runs.len() {
        lemma_runs_total_prefix(runs, k + 1, cs);
        assert(runs.take(k + 1).drop_last() =~= runs.take(k));
        assert(runs.take(k + 1).last() == runs[k]);
        assert(runs[k].length * cs >= 0) by (nonlinear_arith)
            requires
                runs[k].length >= 0,
                cs >= 0,
        ;
    } else {
        assert(runs.take(k) =~= runs);
    }
}

/// Run totals are never negative.
proof fn lemma_runs_total_nonneg(runs: Seq<RunList>, cs: int)
    requires
        cs >= 0,
    ensures
        runs_total(runs, cs) >= 0,
    decreases runs.len(),
{
    if runs.len() > 0 {
        lemma_runs_total_nonneg(runs.drop_last(), cs);
        let last = runs.last();
        assert(last.length * cs >= 0) by (nonlinear_arith)
            requires
                last.length >= 0,
                cs >= 0,
        ;
    }
}

/// An attribute header together with the sources its stream needs: the
/// parent entry's fixed-up file for resident content, the volume and a
/// zero source for non-resident content, and the cluster size.
#[derive(Debug)]
pub struct MftAttributeContent {
    pub offset: u32,
    pub mft_attribute: crate::attribute::MftAttribute,
    pub mft_entry_builder: VFile,
    pub partition_builder: Option<VFile>,
    pub zero_builder: Option<VFile>,
    pub cluster_size: Option<u32>,
}

impl MftAttributeContent {
    /// The sources are well formed; the zero source, when present, reads
    /// entirely as zeros.
    pub open spec fn wf(&self) -> bool {
        &&& self.mft_entry_builder.wf()
        &&& (self.partition_builder matches Some(p) ==> p.wf())
        &&& (self.zero_builder matches Some(z) ==> z.wf() && z@.len() == u64::MAX && forall|i: int|
            0 <= i < z@.len() ==> z@[i] == 0)
    }

    /// Parses the attribute at `offset` of the entry file and packages it
    /// with the stream sources.
    pub fn from_file(
        file: &VFile,
        offset: u32,
        partition_builder: Option<VFile>,
        zero_builder: Option<VFile>,
        cluster_size: Option<u32>,
    ) -> (r: Result<MftAttributeContent, NtfsError>)
        requires
            file.wf(),
            file@.len() + 64 <= usize::MAX,
            partition_builder matches Some(p) ==> p.wf(),
            zero_builder matches Some(z) ==> z.wf() && z@.len() == u64::MAX && forall|i: int|
                0 <= i < z@.len() ==> z@[i] == 0,
        ensures
            match r {
                Ok(c) => {
                    &&& crate::attribute::spec_attr_ok(file@, offset as int)
                    &&& crate::attribute::spec_attr_fields(file@, offset as int, c.mft_attribute)
                    &&& c.wf()
                    &&& c.offset == offset
                    &&& c.mft_entry_builder@ == file@
                    &&& c.cluster_size == cluster_size
                    &&& (c.partition_builder is Some <==> partition_builder is Some)
                    &&& (partition_builder matches Some(p) ==> c.partition_builder matches Some(q)
                        && q@ == p@)
                    &&& (c.zero_builder is Some <==> zero_builder is Some)
                },
                Err(e) => !crate::attribute::spec_attr_ok(file@, offset as int)
                    && crate::attribute::spec_attr_err_matches(file@, offset as int, e),
            },
    {
        let mft_attribute = match crate::attribute::MftAttribute::from_file(file, offset) {
            Ok(a) => a,
            Err(e) => {
                return Err(e);
            },
        };
        let entry = file.duplicate();
        Ok(
            MftAttributeContent {
                offset,
                mft_attribute,
                mft_entry_builder: entry,
                partition_builder,
                zero_builder,
                cluster_size,
            },
        )
    }

    /// The attribute's content as a virtual file: a window of the entry for
    /// resident content, a gather of cluster runs for non-resident content.
    pub fn builder(&self) -> (r: Result<VFile, NtfsError>)
        requires
            self.wf(),
        ensures
            match self.mft_attribute.data {
                ResidentType::Resident(res) => spec_resident_builder_result(
                    self.offset as int,
                    res,
                    self.mft_entry_builder@,
                    r,
                ),
                ResidentType::NonResident(nr) => {
                    match self.partition_builder {
                        None => r == Err::<VFile, NtfsError>(NtfsError::NonResidentData),
                        Some(p) => spec_non_resident_builder_of(
                            nr,
                            p@,
                            self.zero_builder,
                            self.cluster_size,
                            r,
                        ),
                    }
                },
            },
    {
        match &self.mft_attribute.data {
            ResidentType::Resident(res) => {
                let res = *res;
                self.resident_builder(&res)
            },
            ResidentType::NonResident(_) => {
                match &self.partition_builder {
                    Some(p) => {
                        let part = p.duplicate();
                        self.non_resident_builder(&part)
                    },
                    None => Err(NtfsError::NonResidentData),
                }
            },
        }
    }

    /// Maps the resident content window of the entry file.
    pub fn resident_builder(&self, resident: &Resident) -> (r: Result<VFile, NtfsError>)
        requires
            self.wf(),
        ensures
            spec_resident_builder_result(self.offset as int, *resident, self.mft_entry_builder@, r),
    {
        let start = self.offset as u64 + resident.content_offset as u64;
        let content_size = resident.content_size as u64;
        let entry_size = self.mft_entry_builder.size();
        if start > entry_size {
            return Err(NtfsError::ResidentAttributeOffsetTooLarge);
        }
        if content_size > entry_size - start {
            return Err(NtfsError::ResidentAttributeContentTooLarge);
        }
        let mut vf = VFile::empty();
        vf.push(content_size, &self.mft_entry_builder, start);
        proof {
            assert(vf@ =~= self.mft_entry_builder@.subrange(
                start as int,
                start + content_size as int,
            ));
        }
        Ok(vf)
    }

    /// Gathers the non-resident cluster runs against the volume, filling
    /// sparse holes from the zero source, into one stream. The stream
    /// starts with `vnc_start` clusters of zeros so that cluster `vnc` of
    /// the attribute sits at byte `vnc * cluster_size`.
    pub fn non_resident_builder(&self, partition_builder: &VFile) -> (r: Result<VFile, NtfsError>)
        requires
            self.wf(),
            partition_builder.wf(),
            self.mft_attribute.data is NonResident,
        ensures
            match self.mft_attribute.data {
                ResidentType::NonResident(nr) => spec_non_resident_builder_of(
                    nr,
                    partition_builder@,
                    self.zero_builder,
                    self.cluster_size,
                    r,
                ),
                ResidentType::Resident(_) => false,
            },
    {
        let nr = match &self.mft_attribute.data {
            ResidentType::NonResident(nr) => nr,
            ResidentType::Resident(_) => {
                proof {
                    assert(false);
                }
                return Err(NtfsError::NonResidentData);
            },
        };
        let zero = match &self.zero_builder {
            Some(z) => z,
            None => {
                return Err(NtfsError::NonResidentAttributeZeroBuilder);
            },
        };
        let cs32 = match self.cluster_size {
            Some(c) => c,
            None => {
                return Err(NtfsError::NonResidentAttributeClusterSize);
            },
        };
        let cs = cs32 as u64;
        let vol_size = partition_builder.size();
        let lead = match nr.vnc_start.checked_mul(cs) {
            Some(v) => v,
            None => {
                proof {
                    lemma_runs_total_nonneg(nr.runs@, cs as int);
                }
                return Err(NtfsError::NonResidentAttributeOffsetTooLarge);
            },
        };
        let ghost vol = partition_builder@;
        let mut vf = VFile::empty();
        vf.push(lead, zero, 0);
        proof {
            assert(vf@ =~= zero_seq(lead as int));
        }
        let mut k: usize = 0;
        let runs_len = nr.runs.len();
        while k < runs_len
            invariant
                partition_builder.wf(),
                self.mft_attribute.data == ResidentType::NonResident(*nr),
                self.zero_builder is Some,
                self.cluster_size == Some(cs32),
                cs == cs32 as u64,
                runs_len == nr.runs@.len(),
                k <= runs_len,
                zero.wf(),
                zero@.len() == u64::MAX,
                forall|i: int| 0 <= i < zero@.len() ==> zero@[i] == 0,
                vol == partition_builder@,
                vol_size == vol.len(),
                lead as int == nr.vnc_start * cs,
                vf.wf(),
                vf@ == zero_seq(lead as int) + spec_runs_bytes(
                    nr.runs@.take(k as int),
                    vol,
                    cs as int,
                ),
                vf@.len() == lead + runs_total(nr.runs@.take(k as int), cs as int),
                vf@.len() <= u64::MAX,
                runs_mappable(nr.runs@.take(k as int), vol.len() as int, cs as int),
            decreases runs_len - k,
        {
            let run = nr.runs[k];
            let piece = match run.length.checked_mul(cs) {
                Some(v) => v,
                None => {
                    proof {
                        lemma_runs_overflow(nr.runs@, k as int, vol, cs as int, lead as int);
                    }
                    return Err(NtfsError::NonResidentAttributeOffsetTooLarge);
                },
            };
            let cur = vf.size();
            if piece > u64::MAX - cur {
                proof {
                    lemma_runs_overflow(nr.runs@, k as int, vol, cs as int, lead as int);
                }
                return Err(NtfsError::NonResidentAttributeOffsetTooLarge);
            }
            let ghost runs = nr.runs@;
            let ghost kk = k as int;
            if run.offset == 0 {
                vf.push(piece, zero, 0);
                proof {
                    assert(runs.take(kk + 1).drop_last() =~= runs.take(kk));
                    assert(runs.take(kk + 1).last() == runs[kk]);
                    assert(zero@.subrange(0, piece as int) =~= zero_seq(
                        runs[kk].length * (cs as int),
                    ));
                    assert(vf@ =~= zero_seq(lead as int) + spec_runs_bytes(
                        runs.take(kk + 1),
                        vol,
                        cs as int,
                    ));
                    assert(runs_mappable(runs.take(kk + 1), vol.len() as int, cs as int)) by {
                        assert(forall|j: int|
                            0 <= j < kk + 1 ==> runs.take(kk + 1)[j] == #[trigger] runs[j]);
                    }
                }
            } else {
                if run.offset < 0 {
                    proof {
                        lemma_run_unmappable(runs, kk, vol, cs as int);
                    }
                    return Err(NtfsError::NonResidentAttributeOffsetTooLarge);
                }
                let src = match (run.offset as u64).checked_mul(cs) {
                    Some(v) => v,
                    None => {
                        proof {
                            assert(runs[kk].length * (cs as int) >= 0) by (nonlinear_arith)
                                requires
                                    runs[kk].length >= 0,
                                    cs >= 0,
                            ;
                            lemma_run_unmappable(runs, kk, vol, cs as int);
                        }
                        return Err(NtfsError::NonResidentAttributeOffsetTooLarge);
                    },
                };
                if src > vol_size || piece > vol_size - src {
                    proof {
                        lemma_run_unmappable(runs, kk, vol, cs as int);
                    }
                    return Err(NtfsError::NonResidentAttributeOffsetTooLarge);
                }
                vf.push(piece, partition_builder, src);
                proof {
                    assert(runs.take(kk + 1).drop_last() =~= runs.take(kk));
                    assert(runs.take(kk + 1).last() == runs[kk]);
                    assert(vol.subrange(src as int, src + piece as int) == run_bytes(
                        runs[kk],
                        vol,
                        cs as int,
                    ));
                    assert(vf@ =~= zero_seq(lead as int) + spec_runs_bytes(
                        runs.take(kk + 1),
                        vol,
                        cs as int,
                    ));
                    assert(runs_mappable(runs.take(kk + 1), vol.len() as int, cs as int)) by {
                        assert(forall|j: int|
                            0 <= j < kk + 1 ==> runs.take(kk + 1)[j] == #[trigger] runs[j]);
                    }
                }
            }
            k = k + 1;
        }
        proof {
            assert(nr.runs@.take(runs_len as int) =~= nr.runs@);
        }
        Ok(vf)
    }
}

/// The exact outcome of mapping a resident window: the content window of
/// the entry on success, and the precise bound that failed otherwise.
pub open spec fn spec_resident_builder_result(
    attr_offset: int,
    res: Resident,
    entry: Seq<u8>,
    r: Result<VFile, NtfsError>,
) -> bool {
    let start = attr_offset + res.content_offset;
    match r {
        Ok(vf) => vf.wf() && start + res.content_size <= entry.len() && vf@ == entry.subrange(
            start,
            start + res.content_size,
        ),
        Err(e) => {
            if start > entry.len() {
                e == NtfsError::ResidentAttributeOffsetTooLarge
            } else if start + res.content_size > entry.len() {
                e == NtfsError::ResidentAttributeContentTooLarge
            } else {
                false
            }
        },
    }
}

/// The exact outcome of gathering a non-resident stream.
pub open spec fn spec_non_resident_builder_of(
    nr: NonResident,
    vol: Seq<u8>,
    zero: Option<VFile>,
    cluster_size: Option<u32>,
    r: Result<VFile, NtfsError>,
) -> bool {
    match r {
        Ok(vf) => {
            &&& zero is Some
            &&& cluster_size matches Some(cs)
            &&& vf.wf()
            &&& vf@ == zero_seq(nr.vnc_start * cs) + spec_runs_bytes(nr.runs@, vol, cs as int)
            &&& runs_mappable(nr.runs@, vol.len() as int, cs as int)
            &&& nr.vnc_start * cs + runs_total(nr.runs@, cs as int) <= u64::MAX
        },
        Err(e) => {
            if zero is None {
                e == NtfsError::NonResidentAttributeZeroBuilder
            } else if cluster_size is None {
                e == NtfsError::NonResidentAttributeClusterSize
            } else {
                match cluster_size {
                    Some(cs) => {
                        &&& e == NtfsError::NonResidentAttributeOffsetTooLarge
                        &&& !(runs_mappable(nr.runs@, vol.len() as int, cs as int) && nr.vnc_start
                            * cs + runs_total(nr.runs@, cs as int) <= u64::MAX)
                    },
                    None => false,
                }
            }
        },
    }
}

/// Byte `j` of run `k` within the concatenated stream of a run list.
pub proof fn lemma_runs_bytes_at(runs: Seq<RunList>, vol: Seq<u8>, cs: int, k: int, j: int)
    requires
        cs >= 0,
        runs_mappable(runs, vol.len() as int, cs),
        0 <= k < runs.len(),
        0 <= j < runs[k].length * cs,
    ensures
        0 <= runs_total(runs.take(k), cs) + j < spec_runs_bytes(runs, vol, cs).len(),
        spec_runs_bytes(runs, vol, cs)[runs_total(runs.take(k), cs) + j] == run_bytes(
            runs[k],
            vol,
            cs,
        )[j],
    decreases runs.len(),
{
    lemma_runs_bytes_len(runs, vol, cs);
    assert(runs_mappable(runs.drop_last(), vol.len() as int, cs)) by {
        assert(forall|m: int| 0 <= m < runs.len() - 1 ==> runs.drop_last()[m] == #[trigger] runs[m]);
    }
    lemma_runs_bytes_len(runs.drop_last(), vol, cs);
    if k == runs.len() - 1 {
        assert(runs.take(k) =~= runs.drop_last());
    } else {
        assert(runs.drop_last().take(k) =~= runs.take(k));
        lemma_runs_bytes_at(runs.drop_last(), vol, cs, k, j);
        lemma_runs_total_prefix(runs.drop_last(), k, cs);
    }
}

/// The properties of every materialized non-resident stream: its size is
/// the sum of the run lengths times the cluster size, plus the leading
/// `vnc_start` clusters of zeros; no run reaches past the underlying
/// volume; and every sparse run reads as zeros.
pub proof fn lemma_non_resident_stream(
    nr: NonResident,
    vol: Seq<u8>,
    zero: Option<VFile>,
    cluster_size: Option<u32>,
    vf: VFile,
)
    requires
        spec_non_resident_builder_of(nr, vol, zero, cluster_size, Ok(vf)),
        cluster_size matches Some(cs),
    ensures
        ({
            let cs = cluster_size->Some_0 as int;
            &&& vf@.len() == nr.vnc_start * cs + runs_total(nr.runs@, cs)
            &&& (nr.vnc_start == 0 ==> vf@.len() == runs_total(nr.runs@, cs))
            &&& runs_mappable(nr.runs@, vol.len() as int, cs)
            &&& forall|k: int, j: int|
                #![trigger vf@[nr.vnc_start * cs + runs_total(nr.runs@.take(k), cs) + j]]
                0 <= k < nr.runs@.len() && nr.runs@[k].offset == 0 && 0 <= j < nr.runs@[k].length
                    * cs ==> vf@[nr.vnc_start * cs + runs_total(nr.runs@.take(k), cs) + j] == 0
        }),
{
    let cs = cluster_size->Some_0 as int;
    lemma_runs_bytes_len(nr.runs@, vol, cs);
    assert(zero_seq(nr.vnc_start * cs).len() == nr.vnc_start * cs) by {
        assert(nr.vnc_start * cs >= 0) by (nonlinear_arith)
            requires
                nr.vnc_start >= 0,
                cs >= 0,
        ;
    }
    assert forall|k: int, j: int|
        #![trigger vf@[nr.vnc_start * cs + runs_total(nr.runs@.take(k), cs) + j]]
        0 <= k < nr.runs@.len() && nr.runs@[k].offset == 0 && 0 <= j < nr.runs@[k].length
            * cs implies vf@[nr.vnc_start * cs + runs_total(nr.runs@.take(k), cs) + j] == 0 by {
        lemma_runs_bytes_at(nr.runs@, vol, cs, k, j);
        assert(run_bytes(nr.runs@[k], vol, cs)[j] == 0);
    }
}

/// The stream an attribute content materializes, when its sources and
/// bounds allow one: the resident window of the entry, or the gathered
/// cluster runs with zero-filled sparse holes.
pub open spec fn spec_stream_of(c: &MftAttributeContent) -> Option<Seq<u8>> {
    match c.mft_attribute.data {
        ResidentType::Resident(res) => {
            let start = c.offset + res.content_offset;
            if start + res.content_size <= c.mft_entry_builder@.len() {
                Some(c.mft_entry_builder@.subrange(start as int, start + res.content_size))
            } else {
                None
            }
        },
        ResidentType::NonResident(nr) => {
            if c.partition_builder is None || c.zero_builder is None || c.cluster_size is None {
                None
            } else {
                match (c.partition_builder, c.cluster_size) {
                    (Some(p), Some(cs)) => {
                        if runs_mappable(nr.runs@, p@.len() as int, cs as int) && nr.vnc_start * cs
                            + runs_total(nr.runs@, cs as int) <= u64::MAX {
                            Some(
                                zero_seq(nr.vnc_start * cs) + spec_runs_bytes(
                                    nr.runs@,
                                    p@,
                                    cs as int,
                                ),
                            )
                        } else {
                            None
                        }
                    },
                    _ => None,
                }
            }
        },
    }
}

/// A run that fails its bounds check is a witness that the whole run list
/// is not mappable.
proof fn lemma_run_unmappable(runs: Seq<RunList>, k: int, vol: Seq<u8>, cs: int)
    requires
        0 <= k < runs.len(),
        runs[k].offset != 0,
        runs[k].offset < 0 || !(runs[k].offset * cs + runs[k].length * cs <= vol.len()),
    ensures
        !runs_mappable(runs, vol.len() as int, cs),
{
}

/// Failing to place run `k` because the stream length leaves 64 bits
/// means the whole run list cannot fit either.
proof fn lemma_runs_overflow(runs: Seq<RunList>, k: int, vol: Seq<u8>, cs: int, lead: int)
    requires
        0 <= k < runs.len(),
        cs >= 0,
        lead >= 0,
        runs_mappable(runs.take(k), vol.len() as int, cs),
        lead + runs_total(runs.take(k), cs) + runs[k].length * cs > u64::MAX,
    ensures
        !(runs_mappable(runs, vol.len() as int, cs) && lead + runs_total(runs, cs) <= u64::MAX),
{
    if runs_mappable(runs, vol.len() as int, cs) {
        lemma_runs_total_prefix(runs, k + 1, cs);
        assert(runs.take(k + 1).drop_last() =~= runs.take(k));
        assert(runs.take(k + 1).last() == runs[k]);
    }
}

impl Resident {
    /// Parses the six-byte resident body that follows the attribute header
    /// at `attr_offset`.
    pub fn from_file(file: &VFile, attr_offset: u64) -> (r: Result<Resident, NtfsError>)
        requires
            file.wf(),
            attr_offset + 22 <= u64::MAX,
        ensures
            match r {
                Ok(res) => attr_offset + 22 <= file@.len() && res.content_size == le32_at(
                    file@,
                    attr_offset + 16,
                ) && res.content_offset == le16_at(file@, attr_offset + 20),
                Err(e) => e == NtfsError::ReadOutOfBounds && attr_offset + 22 > file@.len(),
            },
    {
        let body = match file.read_exact(attr_offset + 16, 6) {
            Ok(d) => d,
            Err(e) => {
                return Err(e);
            },
        };
        proof {
            assert(body@.subrange(0, 4) =~= file@.subrange(attr_offset + 16, attr_offset + 20));
            assert(body@.subrange(4, 6) =~= file@.subrange(attr_offset + 20, attr_offset + 22));
        }
        let content_size = read_u32_at(&body, 0);
        let content_offset = read_u16_at(&body, 4);
        Ok(Resident { content_size, content_offset })
    }
}

impl NonResident {
    /// Parses the 48-byte non-resident body that follows the attribute
    /// header at `attr_offset`, then decodes the run list it points to.
    pub fn from_file(file: &VFile, attr_offset: u64) -> (r: Result<NonResident, NtfsError>)
        requires
            file.wf(),
            file@.len() + 64 <= usize::MAX,
            attr_offset + 0x1_0040 <= u64::MAX,
        ensures
            ({
                let s = file@;
                let off = attr_offset as int;
                let rlo = le16_at(s, off + 32);
                match r {
                    Ok(nr) => {
                        &&& off + 64 <= s.len()
                        &&& off + rlo <= s.len()
                        &&& crate::attribute::spec_non_resident_fields(s, off, nr)
                    },
                    Err(e) => {
                        if off + 64 > s.len() {
                            e == NtfsError::ReadOutOfBounds
                        } else if off + rlo > s.len() {
                            e == NtfsError::ReadOutOfBounds
                        } else {
                            spec_decode_runs(s, off + rlo, 0) is None && (e
                                == NtfsError::ReadOutOfBounds || e
                                == NtfsError::NonResidentAttributeOffsetTooLarge)
                        }
                    },
                }
            }),
    {
        let ghost s = file@;
        let ghost off = attr_offset as int;
        let body = match file.read_exact(attr_offset + 16, 48) {
            Ok(d) => d,
            Err(e) => {
                return Err(e);
            },
        };
        proof {
            assert(body@.subrange(0, 8) =~= s.subrange(off + 16, off + 24));
            assert(body@.subrange(8, 16) =~= s.subrange(off + 24, off + 32));
            assert(body@.subrange(16, 18) =~= s.subrange(off + 32, off + 34));
            assert(body@.subrange(18, 20) =~= s.subrange(off + 34, off + 36));
            assert(body@.subrange(20, 24) =~= s.subrange(off + 36, off + 40));
            assert(body@.subrange(24, 32) =~= s.subrange(off + 40, off + 48));
            assert(body@.subrange(32, 40) =~= s.subrange(off + 48, off + 56));
            assert(body@.subrange(40, 48) =~= s.subrange(off + 56, off + 64));
        }
        let vnc_start = read_u64_at(&body, 0);
        let vnc_end = read_u64_at(&body, 8);
        let run_list_offset = read_u16_at(&body, 16);
        let compression_block_size = read_u16_at(&body, 18);
        let unused = read_u32_at(&body, 20);
        let content_allocated_size = read_u64_at(&body, 24);
        let content_actual_size = read_u64_at(&body, 32);
        let content_initialized_size = read_u64_at(&body, 40);

        let size = file.size();
        let run_start = attr_offset + run_list_offset as u64;
        if run_start > size {
            return Err(NtfsError::ReadOutOfBounds);
        }
        let tail = match file.read_exact(run_start, (size - run_start) as usize) {
            Ok(d) => d,
            Err(e) => {
                return Err(e);
            },
        };
        proof {
            assert(s.subrange(0, run_start as int) + tail@ =~= s);
            lemma_decode_shift(s.subrange(0, run_start as int), tail@, 0, 0);
        }
        let runs = match decode_runs(&tail, 0) {
            Ok(rs) => rs,
            Err(e) => {
                return Err(e);
            },
        };

        Ok(
            NonResident {
                vnc_start,
                vnc_end,
                run_list_offset,
                compression_block_size,
                unused,
                content_allocated_size,
                content_actual_size,
                content_initialized_size,
                runs,
            },
        )
    }
}

} // verus!
