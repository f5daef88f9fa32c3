//! FILE records: the 42-byte header, the fixup discipline, and the
//! attribute stream.
//!
//! Every multi-sector record stores the real last two bytes of each sector
//! in an update-sequence array and overwrites them in place with a marker,
//! so that a torn write can be detected. [`MftEntry::to_builder`] undoes
//! that: it splices the stored trailer bytes back over the markers and
//! yields the fixed-up view of the record that all attribute parsing runs
//! against.

use vstd::prelude::*;
use vstd::arithmetic::div_mod::lemma_fundamental_div_mod_converse;

use crate::attributecontent::MftAttributeContent;
use crate::bytes::le16_at;
use crate::bytes::le32_at;
use crate::bytes::le48_at;
use crate::bytes::le64_at;
use crate::bytes::read_u16_at;
use crate::bytes::read_u32_at;
use crate::bytes::read_u48_at;
use crate::bytes::read_u64_at;
use crate::error::NtfsError;
use crate::vfile::VFile;

verus! {

/// The ASCII signature "FILE" of a sound record.
pub const MFT_SIGNATURE_FILE: u32 = 0x454C4946;

/// The ASCII signature "BAAD" of a record a chkdsk run found damaged.
pub const MFT_SIGNATURE_BAAD: u32 = 0x44414142;

/// A parsed FILE record header together with the sources needed to read
/// its attributes: the MFT file it lives in, and the volume, zero source
/// and cluster size for non-resident content.
#[derive(Debug)]
pub struct MftEntry {
    pub partition_builder: Option<VFile>,
    pub mft_builder: VFile,
    pub zero_builder: Option<VFile>,
    pub offset: u64,
    pub record_size: u32,
    pub signature: u32,
    pub fixup_array_offset: u16,
    pub fixup_array_entry_count: u16,
    pub lsn: u64,
    pub sequence: u16,
    pub link_count: u16,
    pub first_attribute_offset: u16,
    pub flags: u16,
    pub used_size: u32,
    pub allocated_size: u32,
    pub file_reference_id: u64,
    pub file_reference_sequence: u16,
    pub next_attribute_id: u16,
    pub sector_size: u16,
    pub cluster_size: Option<u32>,
}

/// The fixed-up bytes of the record at `off` of the MFT file `s`: within
/// each whole sector, the last two bytes are replaced by the update
/// sequence array entry of that sector, read from `fix + 2 + 2 * j` within
/// the record; everything else reads through.
pub open spec fn fixed_up_bytes(s: Seq<u8>, off: int, rs: int, ss: int, fix: int) -> Seq<u8> {
    Seq::new(
        rs as nat,
        |t: int|
            {
                let j = t / ss;
                let u = t % ss;
                if j < rs / ss && u >= ss - 2 {
                    s[off + fix + 2 + 2 * j + (u - (ss - 2))]
                } else {
                    s[off + t]
                }
            },
    )
}

/// The geometry constraints under which the fixups of a record can be
/// applied: the record lies inside the MFT file, and the update sequence
/// array covers every whole sector of the record from within it.
pub open spec fn spec_fixup_geometry_ok(mft_len: int, off: int, rs: int, ss: int, fix: int) -> bool {
    &&& off + rs <= mft_len
    &&& (rs / ss > 0 ==> fix + 2 + 2 * (rs / ss) <= rs)
}

/// Whether the record at `off` of the MFT file `s` parses: its header and
/// extent fit, it is not the unused-entry filler, and its update sequence
/// array can cover its sectors.
pub open spec fn spec_record_parse_ok(s: Seq<u8>, off: int, rs: int, ss: int) -> bool {
    &&& off + 42 <= s.len()
    &&& off + rs <= s.len()
    &&& le32_at(s, off + 24) != 0xffffffff
    &&& spec_fixup_geometry_ok(s.len() as int, off, rs, ss, le16_at(s, off + 4))
}

/// The error the record parse at `off` reports, in check order.
pub open spec fn spec_record_parse_err(s: Seq<u8>, off: int, rs: int, ss: int) -> NtfsError {
    if off + 42 > s.len() || off + rs > s.len() {
        NtfsError::ReadOutOfBounds
    } else if le32_at(s, off + 24) == 0xffffffff {
        NtfsError::MftUnusedEntry
    } else {
        NtfsError::MftInvalidSignature
    }
}

/// The header fields a record parsed at `off` of `s` carries.
pub open spec fn spec_entry_fields(s: Seq<u8>, off: int, e: MftEntry) -> bool {
    &&& e.offset == off
    &&& e.signature == le32_at(s, off)
    &&& e.fixup_array_offset == le16_at(s, off + 4)
    &&& e.fixup_array_entry_count == (if le16_at(s, off + 6) > 0 {
        le16_at(s, off + 6) - 1
    } else {
        0
    })
    &&& e.lsn == le64_at(s, off + 8)
    &&& e.sequence == le16_at(s, off + 16)
    &&& e.link_count == le16_at(s, off + 18)
    &&& e.first_attribute_offset == le16_at(s, off + 20)
    &&& e.flags == le16_at(s, off + 22)
    &&& e.used_size == le32_at(s, off + 24)
    &&& e.allocated_size == le32_at(s, off + 28)
    &&& e.file_reference_id == le48_at(s, off + 32)
    &&& e.file_reference_sequence == le16_at(s, off + 38)
    &&& e.next_attribute_id == le16_at(s, off + 40)
}

impl MftEntry {
    /// The sources are well formed, the record lies inside the MFT file,
    /// and the fixup geometry is applicable.
    pub open spec fn wf(&self) -> bool {
        &&& self.mft_builder.wf()
        &&& (self.partition_builder matches Some(p) ==> p.wf())
        &&& (self.zero_builder matches Some(z) ==> z.wf() && z@.len() == u64::MAX && forall|i: int|
            0 <= i < z@.len() ==> z@[i] == 0)
        &&& self.sector_size > 2
        &&& self.record_size + 64 <= usize::MAX
        &&& spec_fixup_geometry_ok(
            self.mft_builder@.len() as int,
            self.offset as int,
            self.record_size as int,
            self.sector_size as int,
            self.fixup_array_offset as int,
        )
    }

    /// The fixed-up view of this record.
    pub open spec fn spec_entry_bytes(&self) -> Seq<u8> {
        fixed_up_bytes(
            self.mft_builder@,
            self.offset as int,
            self.record_size as int,
            self.sector_size as int,
            self.fixup_array_offset as int,
        )
    }

    /// Parses the record header at `offset` of `mft_builder` and keeps the
    /// stream sources. Fails on a record that runs past the MFT file, on
    /// the 0xFFFFFFFF used-size filler of an unused entry, and on a record
    /// whose update sequence array cannot cover its sectors.
    pub fn from_offset(
        offset: u64,
        partition_builder: Option<VFile>,
        mft_builder: VFile,
        zero_builder: Option<VFile>,
        record_size: u32,
        sector_size: u16,
        cluster_size: Option<u32>,
    ) -> (r: Result<MftEntry, NtfsError>)
        requires
            mft_builder.wf(),
            partition_builder matches Some(p) ==> p.wf(),
            zero_builder matches Some(z) ==> z.wf() && z@.len() == u64::MAX && forall|i: int|
                0 <= i < z@.len() ==> z@[i] == 0,
            sector_size > 2,
            record_size + 64 <= usize::MAX,
        ensures
            ({
                let s = mft_builder@;
                let off = offset as int;
                match r {
                    Ok(e) => {
                        &&& spec_record_parse_ok(s, off, record_size as int, sector_size as int)
                        &&& e.wf()
                        &&& e.mft_builder@ == s
                        &&& spec_entry_fields(s, off, e)
                        &&& e.record_size == record_size
                        &&& e.sector_size == sector_size
                        &&& e.cluster_size == cluster_size
                        &&& (e.partition_builder is Some <==> partition_builder is Some)
                        &&& (partition_builder matches Some(p) ==> e.partition_builder matches Some(
                            q,
                        ) && q@ == p@)
                        &&& (e.zero_builder is Some <==> zero_builder is Some)
                    },
                    Err(e) => !spec_record_parse_ok(s, off, record_size as int, sector_size as int)
                        && e == spec_record_parse_err(s, off, record_size as int, sector_size as int),
                }
            }),
    {
        let ghost s = mft_builder@;
        let ghost off = offset as int;
        let data = match mft_builder.read_exact(offset, 42) {
            Ok(d) => d,
            Err(e) => {
                return Err(e);
            },
        };
        let msize = mft_builder.size();
        if record_size as u64 > msize || offset > msize - record_size as u64 {
            return Err(NtfsError::ReadOutOfBounds);
        }
        proof {
            assert(data@.subrange(0, 4) =~= s.subrange(off, off + 4));
            assert(data@.subrange(4, 6) =~= s.subrange(off + 4, off + 6));
            assert(data@.subrange(6, 8) =~= s.subrange(off + 6, off + 8));
            assert(data@.subrange(8, 16) =~= s.subrange(off + 8, off + 16));
            assert(data@.subrange(16, 18) =~= s.subrange(off + 16, off + 18));
            assert(data@.subrange(18, 20) =~= s.subrange(off + 18, off + 20));
            assert(data@.subrange(20, 22) =~= s.subrange(off + 20, off + 22));
            assert(data@.subrange(22, 24) =~= s.subrange(off + 22, off + 24));
            assert(data@.subrange(24, 28) =~= s.subrange(off + 24, off + 28));
            assert(data@.subrange(28, 32) =~= s.subrange(off + 28, off + 32));
            assert(data@.subrange(32, 38) =~= s.subrange(off + 32, off + 38));
            assert(data@.subrange(38, 40) =~= s.subrange(off + 38, off + 40));
            assert(data@.subrange(40, 42) =~= s.subrange(off + 40, off + 42));
        }
        let signature = read_u32_at(&data, 0);
        let fixup_array_offset = read_u16_at(&data, 4);
        let raw_count = read_u16_at(&data, 6);
        let fixup_array_entry_count = if raw_count > 0 {
            raw_count - 1
        } else {
            raw_count
        };
        let lsn = read_u64_at(&data, 8);
        let sequence = read_u16_at(&data, 16);
        let link_count = read_u16_at(&data, 18);
        let first_attribute_offset = read_u16_at(&data, 20);
        let flags = read_u16_at(&data, 22);
        let used_size = read_u32_at(&data, 24);
        if used_size == 0xffffffff {
            return Err(NtfsError::MftUnusedEntry);
        }
        let allocated_size = read_u32_at(&data, 28);
        let file_reference_id = read_u48_at(&data, 32);
        let file_reference_sequence = read_u16_at(&data, 38);
        let next_attribute_id = read_u16_at(&data, 40);

        // The update sequence array must cover every whole sector of the
        // record from within it, or the fixups cannot be applied.
        let sectors = record_size / sector_size as u32;
        if sectors > 0 && fixup_array_offset as u64 + 2 + 2 * sectors as u64 > record_size as u64 {
            return Err(NtfsError::MftInvalidSignature);
        }

        Ok(
            MftEntry {
                partition_builder,
                mft_builder,
                zero_builder,
                offset,
                record_size,
                signature,
                fixup_array_offset,
                fixup_array_entry_count,
                lsn,
                sequence,
                link_count,
                first_attribute_offset,
                flags,
                used_size,
                allocated_size,
                file_reference_id,
                file_reference_sequence,
                next_attribute_id,
                sector_size,
                cluster_size,
            },
        )
    }

    /// The record's size in bytes.
    pub fn size(&self) -> (r: u64)
        ensures
            r == self.record_size,
    {
        self.record_size as u64
    }

    /// Whether the record carries the sound "FILE" signature. A "BAAD"
    /// record — one a consistency check found damaged — still parses, but
    /// reports itself invalid here.
    pub fn is_valid(&self) -> (r: bool)
        ensures
            r == (self.signature == MFT_SIGNATURE_FILE),
    {
        self.signature == MFT_SIGNATURE_FILE
    }

    /// Whether the record is in use (flags bit 0).
    pub fn is_used(&self) -> (r: bool)
        ensures
            r == (self.flags & 0x1 != 0),
    {
        self.flags & 0x1 != 0
    }

    /// Whether the record describes a directory (flags bit 1).
    pub fn is_directory(&self) -> (r: bool)
        ensures
            r == (self.flags & 0x2 != 0),
    {
        self.flags & 0x2 != 0
    }

    /// The fixed-up view of the record: each whole sector's last two bytes
    /// are spliced back in from the update sequence array.
    pub fn to_builder(&self) -> (r: VFile)
        requires
            self.wf(),
        ensures
            r.wf(),
            r@ == self.spec_entry_bytes(),
            r@.len() == self.record_size,
    {
        let ghost s = self.mft_builder@;
        let ghost goal = self.spec_entry_bytes();
        let ss = self.sector_size as u64;
        let rs = self.record_size as u64;
        let fix = self.fixup_array_offset as u64;
        let sectors = rs / ss;
        let msize = self.mft_builder.size();
        let mut vf = VFile::empty();
        let mut j: u64 = 0;
        while j < sectors
            invariant
                self.wf(),
                s == self.mft_builder@,
                s.len() == msize,
                goal == self.spec_entry_bytes(),
                ss == self.sector_size as u64,
                rs == self.record_size as u64,
                fix == self.fixup_array_offset as u64,
                sectors == rs / ss,
                ss > 2,
                j <= sectors,
                vf.wf(),
                vf@.len() == j * ss,
                forall|t: int| 0 <= t < j * ss ==> vf@[t] == goal[t],
            decreases sectors - j,
        {
            proof {
                assert((j + 1) * ss <= sectors * ss <= rs) by (nonlinear_arith)
                    requires
                        j + 1 <= sectors,
                        sectors == rs / ss,
                        ss > 0,
                        rs >= 0,
                ;
                assert(j * ss + ss == (j + 1) * ss) by (nonlinear_arith);
            }
            proof {
                assert(fix + 2 + 2 * (sectors as int) <= rs);
                assert(self.offset + rs <= s.len());
            }
            let body_start = self.offset + j * ss;
            let ghost pre_len = vf@.len();
            vf.push(ss - 2, &self.mft_builder, body_start);
            let trailer_start = self.offset + fix + 2 + 2 * j;
            vf.push(2, &self.mft_builder, trailer_start);
            proof {
                assert forall|t: int| 0 <= t < (j + 1) * ss implies vf@[t] == goal[t] by {
                    if t >= j * ss {
                        let u = t - j * ss;
                        lemma_fundamental_div_mod_converse(t, ss as int, j as int, u);
                        assert(t / (ss as int) == j && t % (ss as int) == u);
                        if u < ss - 2 {
                            assert(vf@[t] == s[self.offset + j * ss + u]);
                            assert(goal[t] == s[self.offset + t]);
                        } else {
                            assert(vf@[t] == s[self.offset + fix + 2 + 2 * j + (u - (ss - 2))]);
                        }
                    }
                }
                assert(vf@.len() == (j + 1) * ss);
            }
            j = j + 1;
        }
        // Any partial trailing sector is mapped through unchanged.
        proof {
            assert(s.len() <= u64::MAX);
            assert(sectors * ss <= rs) by (nonlinear_arith)
                requires
                    sectors == rs / ss,
                    ss > 0,
                    rs >= 0,
            ;
        }
        let done = sectors * ss;
        if done < rs {
            let ghost pre_len = vf@.len();
            vf.push(rs - done, &self.mft_builder, self.offset + done);
            proof {
                assert forall|t: int| 0 <= t < rs implies vf@[t] == goal[t] by {
                    if t >= done {
                        assert(vf@[t] == s[self.offset + done + (t - done)]);
                        assert(t / (ss as int) >= sectors as int) by {
                            if t / (ss as int) < (sectors as int) {
                                assert((t / (ss as int)) * ss + ss <= sectors * ss)
                                    by (nonlinear_arith)
                                    requires
                                        t / (ss as int) + 1 <= sectors as int,
                                        ss > 0,
                                ;
                                assert(t < (t / (ss as int)) * ss + ss) by {
                                    vstd::arithmetic::div_mod::lemma_fundamental_div_mod(
                                        t,
                                        ss as int,
                                    );
                                    assert((t / (ss as int)) * ss == ss * (t / (ss as int)))
                                        by (nonlinear_arith);
                                    assert(t % (ss as int) < ss);
                                }
                            }
                        }
                        assert(goal[t] == s[self.offset + t]);
                    }
                }
            }
        }
        proof {
            assert(vf@ =~= goal);
        }
        vf
    }
}

/// The position of attribute `k` of an entry: attributes chain by their
/// length fields from the first attribute offset.
pub open spec fn spec_content_pos(entry: Seq<u8>, first: int, k: nat) -> int
    decreases k,
{
    if k == 0 {
        first
    } else {
        spec_content_pos(entry, first, (k - 1) as nat) + crate::bytes::le32_at(
            entry,
            spec_content_pos(entry, first, (k - 1) as nat) + 4,
        )
    }
}

/// Whether attribute iteration continues at `pos`: the position lies below
/// the used size and an attribute parses there.
pub open spec fn spec_contents_continues(entry: Seq<u8>, used: int, pos: int) -> bool {
    pos < used && crate::attribute::spec_attr_ok(entry, pos)
}

/// The contents parse in order from the first attribute offset: content
/// `k` sits at its chained position with the parsed attribute fields and
/// carries the entry's stream sources. Iteration reaches an item only when
/// no earlier item had a zero length field.
pub open spec fn spec_contents_prefix(
    e: &MftEntry,
    entry: Seq<u8>,
    cs: Seq<MftAttributeContent>,
) -> bool
    decreases cs.len(),
{
    if cs.len() == 0 {
        true
    } else {
        let k = (cs.len() - 1) as nat;
        let pos = spec_content_pos(entry, e.first_attribute_offset as int, k);
        &&& spec_contents_prefix(e, entry, cs.drop_last())
        &&& (cs.len() >= 2 ==> crate::bytes::le32_at(
            entry,
            spec_content_pos(entry, e.first_attribute_offset as int, (k - 1) as nat) + 4,
        ) != 0)
        &&& spec_contents_continues(entry, e.used_size as int, pos)
        &&& cs.last().offset == pos
        &&& crate::attribute::spec_attr_fields(entry, pos, cs.last().mft_attribute)
        &&& cs.last().wf()
        &&& cs.last().mft_entry_builder@ == entry
        &&& cs.last().cluster_size == e.cluster_size
        &&& (cs.last().partition_builder is Some <==> e.partition_builder is Some)
        &&& (e.partition_builder matches Some(p) ==> (cs.last().partition_builder matches Some(q)
            && q@ == p@))
        &&& (cs.last().zero_builder is Some <==> e.zero_builder is Some)
    }
}

/// Why attribute iteration stopped after `cs`: the last item had a zero
/// length, or nothing further parses below the used size.
pub open spec fn spec_contents_stop(
    e: &MftEntry,
    entry: Seq<u8>,
    cs: Seq<MftAttributeContent>,
) -> bool {
    ||| (cs.len() > 0 && crate::bytes::le32_at(
        entry,
        spec_content_pos(entry, e.first_attribute_offset as int, (cs.len() - 1) as nat) + 4,
    ) == 0)
    ||| !spec_contents_continues(
        entry,
        e.used_size as int,
        spec_content_pos(entry, e.first_attribute_offset as int, cs.len() as nat),
    )
}

/// The attributes are the concatenation, content by content, of what
/// dispatching each content yields.
pub open spec fn spec_dispatched_all(
    cs: Seq<MftAttributeContent>,
    out: Seq<crate::ntfsattributes::NtfsAttribute>,
) -> bool
    decreases cs.len(),
{
    if cs.len() == 0 {
        out == Seq::<crate::ntfsattributes::NtfsAttribute>::empty()
    } else {
        exists|m: int|
            0 <= m <= out.len() && spec_dispatched_all(cs.drop_last(), out.take(m))
                && crate::ntfsattributes::spec_dispatch_ok(&cs.last(), out.skip(m))
    }
}

/// Dispatching the contents of a referenced entry that match one list
/// item's attribute id: the matching contents' dispatches, concatenated
/// in order; other contents contribute nothing.
pub open spec fn spec_dispatched_matching(
    cs: Seq<MftAttributeContent>,
    id: u16,
    out: Seq<crate::ntfsattributes::NtfsAttribute>,
) -> bool
    decreases cs.len(),
{
    if cs.len() == 0 {
        out == Seq::<crate::ntfsattributes::NtfsAttribute>::empty()
    } else {
        exists|m: int|
            0 <= m <= out.len() && spec_dispatched_matching(cs.drop_last(), id, out.take(m)) && (
            if cs.last().mft_attribute.id == id {
                crate::ntfsattributes::spec_dispatch_ok(&cs.last(), out.skip(m))
            } else {
                out.skip(m) == Seq::<crate::ntfsattributes::NtfsAttribute>::empty()
            })
    }
}

/// Following one AttributeList item into the table: when the record it
/// references parses, some entry with the table's geometry and sources
/// stands behind it, and the output is the dispatch of that entry's
/// contents whose attribute id matches the item's; an unreadable record
/// contributes nothing.
pub open spec fn spec_followed_item(
    t: &crate::mft::MftEntries,
    item: &crate::attributes::list::AttributeListItem,
    out: Seq<crate::ntfsattributes::NtfsAttribute>,
) -> bool {
    let off = item.mft_entry_id * t.mft_record_size;
    if off <= u64::MAX && spec_record_parse_ok(
        t.master_mft_builder@,
        off as int,
        t.mft_record_size as int,
        t.sector_size as int,
    ) {
        exists|e: MftEntry, cs: Seq<MftAttributeContent>|
            #![trigger spec_contents_prefix(&e, e.spec_entry_bytes(), cs)]
            {
                &&& spec_entry_fields(t.master_mft_builder@, off as int, e)
                &&& e.mft_builder@ == t.master_mft_builder@
                &&& e.record_size == t.mft_record_size
                &&& e.sector_size == t.sector_size
                &&& e.cluster_size == t.cluster_size
                &&& (e.partition_builder is Some <==> t.partition_builder is Some)
                &&& (t.partition_builder matches Some(p) ==> (e.partition_builder matches Some(q)
                    && q@ == p@))
                &&& (e.zero_builder is Some <==> t.zero_builder is Some)
                &&& spec_contents_prefix(&e, e.spec_entry_bytes(), cs)
                &&& spec_contents_stop(&e, e.spec_entry_bytes(), cs)
                &&& spec_dispatched_matching(cs, item.id, out)
            }
    } else {
        out == Seq::<crate::ntfsattributes::NtfsAttribute>::empty()
    }
}

/// Following every item of an AttributeList, in order.
pub open spec fn spec_followed_items(
    t: &crate::mft::MftEntries,
    items: Seq<crate::attributes::list::AttributeListItem>,
    out: Seq<crate::ntfsattributes::NtfsAttribute>,
) -> bool
    decreases items.len(),
{
    if items.len() == 0 {
        out == Seq::<crate::ntfsattributes::NtfsAttribute>::empty()
    } else {
        exists|m: int|
            0 <= m <= out.len() && spec_followed_items(t, items.drop_last(), out.take(m))
                && spec_followed_item(t, &items.last(), out.skip(m))
    }
}

/// What dispatching one content yields when a table is supplied: an
/// AttributeList whose stream materializes and decodes is followed into
/// the referenced entries; everything else dispatches as without a table.
pub open spec fn spec_dispatch_full(
    t: Option<&crate::mft::MftEntries>,
    c: &MftAttributeContent,
    out: Seq<crate::ntfsattributes::NtfsAttribute>,
) -> bool {
    match t {
        None => crate::ntfsattributes::spec_dispatch_ok(c, out),
        Some(tt) => {
            if c.mft_attribute.type_id == crate::ntfsattributes::NtfsAttributeType::AttributeList {
                match crate::attributecontent::spec_stream_of(c) {
                    None => out == Seq::<crate::ntfsattributes::NtfsAttribute>::empty(),
                    Some(b) => {
                        if b.len() + 0x2_0000 <= u64::MAX {
                            exists|items: Seq<crate::attributes::list::AttributeListItem>|
                                #[trigger] crate::attributes::list::spec_list_prefix(b, items)
                                    && !crate::attributes::list::spec_list_continues(
                                    b,
                                    crate::attributes::list::spec_item_pos(b, items.len() as nat),
                                ) && spec_followed_items(tt, items, out)
                        } else {
                            out == Seq::<crate::ntfsattributes::NtfsAttribute>::empty()
                        }
                    },
                }
            } else {
                crate::ntfsattributes::spec_dispatch_ok(c, out)
            }
        },
    }
}

/// The attributes are the concatenation, content by content, of what
/// dispatching each content with the table yields.
pub open spec fn spec_dispatched_all_with(
    t: Option<&crate::mft::MftEntries>,
    cs: Seq<MftAttributeContent>,
    out: Seq<crate::ntfsattributes::NtfsAttribute>,
) -> bool
    decreases cs.len(),
{
    if cs.len() == 0 {
        out == Seq::<crate::ntfsattributes::NtfsAttribute>::empty()
    } else {
        exists|m: int|
            0 <= m <= out.len() && spec_dispatched_all_with(t, cs.drop_last(), out.take(m))
                && spec_dispatch_full(t, &cs.last(), out.skip(m))
    }
}

impl MftEntry {
    /// Walks the attribute stream of the fixed-up record: attributes start
    /// at the first attribute offset and chain by their length fields up
    /// to the used size. A zero length or any parse failure ends the walk
    /// cleanly with what was read so far.
    pub fn contents(&self) -> (r: Vec<MftAttributeContent>)
        requires
            self.wf(),
        ensures
            spec_contents_prefix(self, self.spec_entry_bytes(), r@),
            spec_contents_stop(self, self.spec_entry_bytes(), r@),
    {
        let ghost entry_bytes = self.spec_entry_bytes();
        let entry = self.to_builder();
        let mut contents: Vec<MftAttributeContent> = Vec::new();
        let mut offset: u64 = self.first_attribute_offset as u64;
        let used = self.used_size as u64;
        loop
            invariant
                self.wf(),
                entry.wf(),
                entry@ == entry_bytes,
                entry_bytes == self.spec_entry_bytes(),
                entry@.len() == self.record_size,
                used == self.used_size,
                offset <= used + 0xffff_ffff,
                offset as int == spec_content_pos(
                    entry_bytes,
                    self.first_attribute_offset as int,
                    contents@.len() as nat,
                ),
                spec_contents_prefix(self, entry_bytes, contents@),
                contents@.len() > 0 ==> crate::bytes::le32_at(
                    entry_bytes,
                    spec_content_pos(
                        entry_bytes,
                        self.first_attribute_offset as int,
                        (contents@.len() - 1) as nat,
                    ) + 4,
                ) != 0,
            decreases used + 0xffff_ffff - offset,
        {
            if offset >= used {
                return contents;
            }
            let content = match MftAttributeContent::from_file(
                &entry,
                offset as u32,
                match &self.partition_builder {
                    Some(p) => Some(p.duplicate()),
                    None => None,
                },
                match &self.zero_builder {
                    Some(z) => Some(z.duplicate()),
                    None => None,
                },
                self.cluster_size,
            ) {
                Ok(c) => c,
                Err(_) => {
                    return contents;
                },
            };
            let length = content.mft_attribute.length;
            let ghost pre = contents@;
            let ghost gcontent = content;
            contents.push(content);
            proof {
                assert(contents@.drop_last() =~= pre);
                assert(contents@.last() == gcontent);
                assert(spec_contents_prefix(self, entry_bytes, contents@));
            }
            if length == 0 {
                return contents;
            }
            offset = offset + length as u64;
        }
    }

    /// Turns one content into its typed attributes. A Data attribute is
    /// passed through whole; StandardInformation, FileName, VolumeName and
    /// VolumeInformation are decoded from the content's stream; an
    /// AttributeList is followed into the referenced entries when a table
    /// is supplied, one level deep — list items inside recursively loaded
    /// entries are not followed again, which bounds the recursion on
    /// malformed images. Undecodable content is skipped.
    pub fn content_to_attribute(
        &self,
        content: MftAttributeContent,
        mft_entries: Option<&crate::mft::MftEntries>,
    ) -> (r: Vec<crate::ntfsattributes::NtfsAttribute>)
        requires
            self.wf(),
            content.wf(),
            mft_entries matches Some(m) ==> m.wf(),
        ensures
            crate::ntfsattributes::spec_dispatch_ok(&content, r@),
            spec_dispatch_full(mft_entries, &content, r@),
            forall|k: int|
                0 <= k < r@.len() ==> ((#[trigger] r@[k])
                    matches crate::ntfsattributes::NtfsAttribute::Data(c) ==> c.wf()),
        decreases (if mft_entries is Some {
            1int
        } else {
            0int
        }), 0int,
    {
        let ghost gcontent = content;
        let mut attributes: Vec<crate::ntfsattributes::NtfsAttribute> = Vec::new();
        let type_id = content.mft_attribute.type_id;
        let builder = match content.builder() {
            Ok(b) => b,
            Err(_) => {
                proof {
                    assert(crate::attributecontent::spec_stream_of(&gcontent) is None);
                    assert(attributes@ =~= Seq::<crate::ntfsattributes::NtfsAttribute>::empty());
                }
                return attributes;
            },
        };
        proof {
            assert(crate::attributecontent::spec_stream_of(&gcontent) == Some(builder@));
        }
        match type_id {
            crate::ntfsattributes::NtfsAttributeType::StandardInformation => {
                match crate::attributes::standard::StandardInformation::new(&builder) {
                    Ok(si) => {
                        attributes.push(
                            crate::ntfsattributes::NtfsAttribute::StandardInformation(si),
                        );
                    },
                    Err(_) => {
                        proof {
                            assert(attributes@
                                =~= Seq::<crate::ntfsattributes::NtfsAttribute>::empty());
                        }
                    },
                }
            },
            crate::ntfsattributes::NtfsAttributeType::FileName => {
                match crate::attributes::filename::FileName::new(&builder) {
                    Ok(fname) => {
                        attributes.push(crate::ntfsattributes::NtfsAttribute::FileName(fname));
                    },
                    Err(_) => {
                        proof {
                            assert(attributes@
                                =~= Seq::<crate::ntfsattributes::NtfsAttribute>::empty());
                        }
                    },
                }
            },
            crate::ntfsattributes::NtfsAttributeType::Data => {
                attributes.push(crate::ntfsattributes::NtfsAttribute::Data(content));
            },
            crate::ntfsattributes::NtfsAttributeType::VolumeName => {
                let vol_len = builder.size();
                if vol_len <= usize::MAX as u64 {
                    match crate::attributes::volume::VolumeName::new(&builder) {
                        Ok(vn) => {
                            attributes.push(crate::ntfsattributes::NtfsAttribute::VolumeName(vn));
                        },
                        Err(_) => {},
                    }
                } else {
                    proof {
                        assert(attributes@
                            =~= Seq::<crate::ntfsattributes::NtfsAttribute>::empty());
                    }
                }
            },
            crate::ntfsattributes::NtfsAttributeType::VolumeInformation => {
                match crate::attributes::volume::VolumeInformation::new(&builder) {
                    Ok(vi) => {
                        attributes.push(
                            crate::ntfsattributes::NtfsAttribute::VolumeInformation(vi),
                        );
                    },
                    Err(_) => {
                        proof {
                            assert(attributes@
                                =~= Seq::<crate::ntfsattributes::NtfsAttribute>::empty());
                        }
                    },
                }
            },
            crate::ntfsattributes::NtfsAttributeType::AttributeList => {
                let list_len = builder.size();
                if list_len <= u64::MAX - 0x2_0000 {
                    match crate::attributes::list::AttributeList::new(&builder) {
                        Ok(items) => {
                            match mft_entries {
                                Some(entries) => {
                                    self.follow_attribute_list(&items, entries, &mut attributes);
                                    proof {
                                        assert(attributes@.skip(0) =~= attributes@);
                                        assert(crate::attributes::list::spec_list_prefix(
                                            builder@,
                                            items@,
                                        ) && !crate::attributes::list::spec_list_continues(
                                            builder@,
                                            crate::attributes::list::spec_item_pos(
                                                builder@,
                                                items@.len() as nat,
                                            ),
                                        ) && spec_followed_items(entries, items@, attributes@));
                                    }
                                },
                                None => {},
                            }
                        },
                        Err(_) => {
                            proof {
                                assert(false);
                            }
                        },
                    }
                } else {
                    proof {
                        assert(attributes@
                            =~= Seq::<crate::ntfsattributes::NtfsAttribute>::empty());
                    }
                }
            },
            _ => {
                proof {
                    assert(attributes@ =~= Seq::<crate::ntfsattributes::NtfsAttribute>::empty());
                }
            },
        }
        attributes
    }

    /// Follows each item of an AttributeList into the table: the
    /// referenced entry is loaded, its contents scanned, and every content
    /// whose attribute id matches the item's is dispatched — without
    /// following further attribute lists.
    fn follow_attribute_list(
        &self,
        items: &Vec<crate::attributes::list::AttributeListItem>,
        entries: &crate::mft::MftEntries,
        attributes: &mut Vec<crate::ntfsattributes::NtfsAttribute>,
    )
        requires
            self.wf(),
            entries.wf(),
            forall|k: int|
                0 <= k < old(attributes)@.len() ==> ((#[trigger] old(attributes)@[k])
                    matches crate::ntfsattributes::NtfsAttribute::Data(c) ==> c.wf()),
        ensures
            forall|k: int|
                0 <= k < final(attributes)@.len() ==> ((#[trigger] final(attributes)@[k])
                    matches crate::ntfsattributes::NtfsAttribute::Data(c) ==> c.wf()),
            final(attributes)@.len() >= old(attributes)@.len(),
            final(attributes)@.take(old(attributes)@.len() as int) == old(attributes)@,
            spec_followed_items(
                entries,
                items@,
                final(attributes)@.skip(old(attributes)@.len() as int),
            ),
        decreases 0int, 1int,
    {
        let ghost base = old(attributes)@.len() as int;
        let mut it: usize = 0;
        proof {
            assert(items@.take(0) =~= Seq::<crate::attributes::list::AttributeListItem>::empty());
            assert(attributes@.skip(base) =~= Seq::<crate::ntfsattributes::NtfsAttribute>::empty());
        }
        while it < items.len()
            invariant
                self.wf(),
                entries.wf(),
                it <= items@.len(),
                attributes@.len() >= base >= 0,
                attributes@.take(base) == old(attributes)@,
                spec_followed_items(entries, items@.take(it as int), attributes@.skip(base)),
                forall|k: int|
                    0 <= k < attributes@.len() ==> ((#[trigger] attributes@[k])
                        matches crate::ntfsattributes::NtfsAttribute::Data(c) ==> c.wf()),
            decreases items@.len() - it,
        {
            let ghost item_base = attributes@.len() as int;
            let ghost pre_item = attributes@;
            let item_entry_id = items[it].mft_entry_id;
            let item_id = items[it].id;
            match entries.entry(item_entry_id) {
                Ok(ref_entry) => {
                    let mut ref_contents = ref_entry.contents();
                    let ghost orig = ref_contents@;
                    let ghost eb = ref_entry.spec_entry_bytes();
                    let total_c = ref_contents.len();
                    let mut idx: usize = 0;
                    proof {
                        assert(orig.take(0) =~= Seq::<MftAttributeContent>::empty());
                        assert(attributes@.skip(item_base)
                            =~= Seq::<crate::ntfsattributes::NtfsAttribute>::empty());
                    }
                    while ref_contents.len() > 0
                        invariant
                            self.wf(),
                            entries.wf(),
                            ref_entry.wf(),
                            spec_contents_prefix(&ref_entry, eb, orig),
                            eb == ref_entry.spec_entry_bytes(),
                            orig.len() == total_c,
                            idx + ref_contents@.len() == orig.len(),
                            ref_contents@ == orig.skip(idx as int),
                            attributes@.len() >= item_base >= 0,
                            attributes@.take(item_base) == pre_item,
                            spec_dispatched_matching(
                                orig.take(idx as int),
                                item_id,
                                attributes@.skip(item_base),
                            ),
                            forall|k: int|
                                0 <= k < attributes@.len() ==> ((#[trigger] attributes@[k])
                                    matches crate::ntfsattributes::NtfsAttribute::Data(c)
                                    ==> c.wf()),
                        decreases ref_contents@.len(),
                    {
                        let c = ref_contents.remove(0);
                        let ghost gc = c;
                        proof {
                            assert(c == orig[idx as int]);
                            lemma_contents_prefix_index(&ref_entry, eb, orig, idx as int);
                            assert(orig.skip(idx as int).remove(0) =~= orig.skip(idx + 1));
                            assert(orig.take(idx + 1).drop_last() =~= orig.take(idx as int));
                            assert(orig.take(idx + 1).last() == gc);
                        }
                        if c.mft_attribute.id == item_id {
                            let ghost pre = attributes@;
                            let mut sub = self.content_to_attribute(c, None);
                            let ghost gsub = sub@;
                            attributes.append(&mut sub);
                            proof {
                                assert forall|k: int|
                                    0 <= k < attributes@.len() implies ((#[trigger] attributes@[k])
                                    matches crate::ntfsattributes::NtfsAttribute::Data(cc)
                                    ==> cc.wf()) by {
                                    if k < pre.len() {
                                        assert(attributes@[k] == pre[k]);
                                    } else {
                                        assert(attributes@[k] == gsub[k - pre.len()]);
                                    }
                                }
                                assert(attributes@.take(item_base) =~= pre.take(item_base));
                                assert(attributes@.skip(item_base).take(pre.len() - item_base)
                                    =~= pre.skip(item_base));
                                assert(attributes@.skip(item_base).skip(pre.len() - item_base)
                                    =~= gsub);
                                assert(spec_dispatched_matching(
                                    orig.take(idx + 1),
                                    item_id,
                                    attributes@.skip(item_base),
                                )) by {
                                    assert(0 <= pre.len() - item_base <= attributes@.skip(
                                        item_base,
                                    ).len() && spec_dispatched_matching(
                                        orig.take(idx + 1).drop_last(),
                                        item_id,
                                        attributes@.skip(item_base).take(pre.len() - item_base),
                                    ) && crate::ntfsattributes::spec_dispatch_ok(
                                        &orig.take(idx + 1).last(),
                                        attributes@.skip(item_base).skip(pre.len() - item_base),
                                    ));
                                }
                            }
                        } else {
                            proof {
                                assert(attributes@.skip(item_base).skip(attributes@.len()
                                    - item_base)
                                    =~= Seq::<crate::ntfsattributes::NtfsAttribute>::empty());
                                assert(attributes@.skip(item_base).take(attributes@.len()
                                    - item_base) =~= attributes@.skip(item_base));
                                assert(spec_dispatched_matching(
                                    orig.take(idx + 1),
                                    item_id,
                                    attributes@.skip(item_base),
                                )) by {
                                    assert(0 <= attributes@.len() - item_base <= attributes@.skip(
                                        item_base,
                                    ).len() && spec_dispatched_matching(
                                        orig.take(idx + 1).drop_last(),
                                        item_id,
                                        attributes@.skip(item_base).take(attributes@.len()
                                            - item_base),
                                    ));
                                }
                            }
                        }
                        idx = idx + 1;
                    }
                    proof {
                        assert(orig.take(idx as int) =~= orig);
                        assert(spec_followed_item(
                            entries,
                            &items@[it as int],
                            attributes@.skip(item_base),
                        )) by {
                            assert(spec_contents_prefix(&ref_entry, ref_entry.spec_entry_bytes(), orig)
                                && spec_contents_stop(&ref_entry, ref_entry.spec_entry_bytes(), orig)
                                && spec_dispatched_matching(
                                orig,
                                item_id,
                                attributes@.skip(item_base),
                            ));
                        }
                    }
                },
                Err(_) => {
                    proof {
                        assert(attributes@.skip(item_base)
                            =~= Seq::<crate::ntfsattributes::NtfsAttribute>::empty());
                        assert(spec_followed_item(
                            entries,
                            &items@[it as int],
                            attributes@.skip(item_base),
                        ));
                    }
                },
            }
            proof {
                assert(items@.take(it + 1).drop_last() =~= items@.take(it as int));
                assert(items@.take(it + 1).last() == items@[it as int]);
                assert(attributes@.take(base) =~= pre_item.take(base));
                assert(attributes@.skip(base).take(item_base - base) =~= pre_item.skip(base));
                assert(attributes@.skip(base).skip(item_base - base) =~= attributes@.skip(
                    item_base,
                ));
                assert(spec_followed_items(
                    entries,
                    items@.take(it + 1),
                    attributes@.skip(base),
                )) by {
                    assert(0 <= item_base - base <= attributes@.skip(base).len()
                        && spec_followed_items(
                        entries,
                        items@.take(it + 1).drop_last(),
                        attributes@.skip(base).take(item_base - base),
                    ) && spec_followed_item(
                        entries,
                        &items@.take(it + 1).last(),
                        attributes@.skip(base).skip(item_base - base),
                    ));
                }
            }
            it = it + 1;
        }
        proof {
            assert(items@.take(it as int) =~= items@);
        }
    }

    /// Decodes every attribute of the entry, following attribute lists
    /// into the supplied table one level deep. The result is the
    /// concatenation, content by content, of what dispatching each parsed
    /// content yields; every Data attribute in it carries well-formed
    /// stream sources.
    pub fn read_attributes(&self, mft_entries: Option<&crate::mft::MftEntries>) -> (r:
        crate::ntfsattributes::NtfsAttributes)
        requires
            self.wf(),
            mft_entries matches Some(m) ==> m.wf(),
        ensures
            forall|k: int|
                0 <= k < r.attributes@.len() ==> ((#[trigger] r.attributes@[k])
                    matches crate::ntfsattributes::NtfsAttribute::Data(c) ==> c.wf()),
            exists|cs: Seq<MftAttributeContent>|
                {
                    &&& #[trigger] spec_contents_prefix(self, self.spec_entry_bytes(), cs)
                    &&& spec_contents_stop(self, self.spec_entry_bytes(), cs)
                    &&& spec_dispatched_all(cs, r.attributes@)
                    &&& spec_dispatched_all_with(mft_entries, cs, r.attributes@)
                },
    {
        let mut contents = self.contents();
        let ghost orig = contents@;
        let ghost entry_bytes = self.spec_entry_bytes();
        let total_c = contents.len();
        let mut attributes: Vec<crate::ntfsattributes::NtfsAttribute> = Vec::new();
        let mut idx: usize = 0;
        proof {
            assert(orig.take(0) =~= Seq::<MftAttributeContent>::empty());
        }
        while contents.len() > 0
            invariant
                self.wf(),
                mft_entries matches Some(m) ==> m.wf(),
                spec_contents_prefix(self, entry_bytes, orig),
                spec_contents_stop(self, entry_bytes, orig),
                entry_bytes == self.spec_entry_bytes(),
                orig.len() == total_c,
                idx + contents@.len() == orig.len(),
                contents@ == orig.skip(idx as int),
                spec_dispatched_all(orig.take(idx as int), attributes@),
                spec_dispatched_all_with(mft_entries, orig.take(idx as int), attributes@),
                forall|k: int|
                    0 <= k < attributes@.len() ==> ((#[trigger] attributes@[k])
                        matches crate::ntfsattributes::NtfsAttribute::Data(c) ==> c.wf()),
            decreases contents@.len(),
        {
            let c = contents.remove(0);
            let ghost gc = c;
            proof {
                assert(c == orig[idx as int]);
                lemma_contents_prefix_index(self, entry_bytes, orig, idx as int);
                assert(orig.skip(idx as int).remove(0) =~= orig.skip(idx + 1));
            }
            let ghost pre = attributes@;
            let mut sub = self.content_to_attribute(c, mft_entries);
            let ghost gsub = sub@;
            attributes.append(&mut sub);
            proof {
                assert forall|k: int|
                    0 <= k < attributes@.len() implies ((#[trigger] attributes@[k])
                    matches crate::ntfsattributes::NtfsAttribute::Data(cc) ==> cc.wf()) by {
                    if k < pre.len() {
                        assert(attributes@[k] == pre[k]);
                    } else {
                        assert(attributes@[k] == gsub[k - pre.len()]);
                    }
                }
                assert(orig.take(idx + 1).drop_last() =~= orig.take(idx as int));
                assert(orig.take(idx + 1).last() == gc);
                assert(attributes@.take(pre.len() as int) =~= pre);
                assert(attributes@.skip(pre.len() as int) =~= gsub);
                assert(spec_dispatched_all(orig.take(idx + 1), attributes@)) by {
                    assert(0 <= pre.len() <= attributes@.len()
                        && spec_dispatched_all(
                        orig.take(idx + 1).drop_last(),
                        attributes@.take(pre.len() as int),
                    )
                        && crate::ntfsattributes::spec_dispatch_ok(
                        &orig.take(idx + 1).last(),
                        attributes@.skip(pre.len() as int),
                    ));
                }
                assert(spec_dispatched_all_with(mft_entries, orig.take(idx + 1), attributes@))
                    by {
                    assert(0 <= pre.len() <= attributes@.len()
                        && spec_dispatched_all_with(
                        mft_entries,
                        orig.take(idx + 1).drop_last(),
                        attributes@.take(pre.len() as int),
                    )
                        && spec_dispatch_full(
                        mft_entries,
                        &orig.take(idx + 1).last(),
                        attributes@.skip(pre.len() as int),
                    ));
                }
            }
            idx = idx + 1;
        }
        proof {
            assert(orig.take(idx as int) =~= orig);
        }
        crate::ntfsattributes::NtfsAttributes::new(attributes)
    }

    /// The stream of the entry's first Data attribute; the MFT itself is
    /// bootstrapped through this. Reports `MftAttributeNotFound` exactly
    /// when the decoded attributes hold no Data attribute; otherwise the
    /// result is the first Data attribute's stream, or that stream's
    /// failure.
    pub fn data_attribute(&self) -> (r: Result<VFile, NtfsError>)
        requires
            self.wf(),
        ensures
            exists|attrs: Seq<crate::ntfsattributes::NtfsAttribute>, cs: Seq<MftAttributeContent>|
                {
                    &&& #[trigger] spec_dispatched_all(cs, attrs)
                    &&& spec_contents_prefix(self, self.spec_entry_bytes(), cs)
                    &&& spec_contents_stop(self, self.spec_entry_bytes(), cs)
                    &&& match r {
                        Ok(vf) => vf.wf() && (exists|j: int|
                            #[trigger] spec_first_data(attrs, j) && (attrs[j] matches
                            crate::ntfsattributes::NtfsAttribute::Data(c)
                                && crate::attributecontent::spec_stream_of(&c) == Some(vf@))),
                        Err(e) => {
                            if e == NtfsError::MftAttributeNotFound(
                                crate::ntfsattributes::NtfsAttributeType::Data,
                            ) {
                                forall|i: int|
                                    0 <= i < attrs.len() ==> !((#[trigger] attrs[i]) is Data)
                            } else {
                                &&& (e == NtfsError::NonResidentData || e
                                    == NtfsError::ResidentAttributeOffsetTooLarge || e
                                    == NtfsError::ResidentAttributeContentTooLarge || e
                                    == NtfsError::NonResidentAttributeZeroBuilder || e
                                    == NtfsError::NonResidentAttributeClusterSize || e
                                    == NtfsError::NonResidentAttributeOffsetTooLarge)
                                &&& exists|j: int|
                                    #[trigger] spec_first_data(attrs, j) && (attrs[j] matches
                                    crate::ntfsattributes::NtfsAttribute::Data(c)
                                        && crate::attributecontent::spec_stream_of(&c) is None)
                            }
                        },
                    }
                },
    {
        let attrs = self.read_attributes(None);
        let ghost gattrs = attrs.attributes@;
        let datas = attrs.find_datas();
        if datas.len() == 0 {
            proof {
                assert forall|i: int| 0 <= i < gattrs.len() implies !((#[trigger] gattrs[i])
                    is Data) by {
                    if gattrs[i] is Data {
                        let k = choose|k: int| 0 <= k < datas@.len() && datas@[k] == i;
                    }
                }
            }
            return Err(
                NtfsError::MftAttributeNotFound(crate::ntfsattributes::NtfsAttributeType::Data),
            );
        }
        let first = datas[0];
        proof {
            // The index list is sorted and complete, so its head is the
            // first Data attribute.
            assert(spec_first_data(gattrs, first as int)) by {
                assert forall|i: int| 0 <= i < first implies !((#[trigger] gattrs[i]) is Data) by {
                    if gattrs[i] is Data {
                        let k = choose|k: int| 0 <= k < datas@.len() && datas@[k] == i;
                        if k > 0 {
                            assert(datas@[0] < datas@[k]);
                        }
                    }
                }
            }
        }
        let c = attrs.data_at(first);
        proof {
            assert(gattrs[first as int] matches crate::ntfsattributes::NtfsAttribute::Data(cc)
                ==> cc.wf());
        }
        let result = c.builder();
        proof {
            match result {
                Ok(ref vf) => {
                    assert(crate::attributecontent::spec_stream_of(c) == Some(vf@));
                },
                Err(e) => {
                    assert(crate::attributecontent::spec_stream_of(c) is None);
                    assert(e != NtfsError::MftAttributeNotFound(
                        crate::ntfsattributes::NtfsAttributeType::Data,
                    ));
                },
            }
        }
        result
    }
}

/// `j` indexes the first Data attribute of `attrs`.
pub open spec fn spec_first_data(
    attrs: Seq<crate::ntfsattributes::NtfsAttribute>,
    j: int,
) -> bool {
    &&& 0 <= j < attrs.len()
    &&& attrs[j] is Data
    &&& forall|i: int| 0 <= i < j ==> !((#[trigger] attrs[i]) is Data)
}

/// Each content of a parsed prefix carries the parsed attribute of its
/// position and well-formed sources.
pub proof fn lemma_contents_prefix_index(
    e: &MftEntry,
    entry: Seq<u8>,
    cs: Seq<MftAttributeContent>,
    k: int,
)
    requires
        spec_contents_prefix(e, entry, cs),
        0 <= k < cs.len(),
    ensures
        cs[k].wf(),
        cs[k].mft_entry_builder@ == entry,
        crate::attribute::spec_attr_fields(
            entry,
            spec_content_pos(entry, e.first_attribute_offset as int, k as nat),
            cs[k].mft_attribute,
        ),
    decreases cs.len(),
{
    if k < cs.len() - 1 {
        lemma_contents_prefix_index(e, entry, cs.drop_last(), k);
    }
}

/// Fixup correctness: in the fixed-up view of a record, the two bytes that
/// close sector `k` (positions `ss * k - 2` and `ss * k - 1`, for `k` from
/// 1 to the sector count) are exactly update-sequence entry `k` of the
/// record, the entry at `fix + 2 * k` — entry 0 being the update sequence
/// number itself, which is skipped.
pub proof fn lemma_fixup_correctness(s: Seq<u8>, off: int, rs: int, ss: int, fix: int, k: int)
    requires
        ss > 2,
        1 <= k <= rs / ss,
        spec_fixup_geometry_ok(s.len() as int, off, rs, ss, fix),
        0 <= off,
        0 <= fix,
    ensures
        fixed_up_bytes(s, off, rs, ss, fix)[ss * k - 2] == s[off + fix + 2 * k],
        fixed_up_bytes(s, off, rs, ss, fix)[ss * k - 1] == s[off + fix + 2 * k + 1],
{
    let t2 = ss * k - 2;
    let t1 = ss * k - 1;
    assert(ss * k == (k - 1) * ss + ss) by (nonlinear_arith);
    assert(0 <= t2) by (nonlinear_arith)
        requires
            ss > 2,
            k >= 1,
            t2 == ss * k - 2,
    ;
    lemma_fundamental_div_mod_converse(t2, ss, k - 1, ss - 2);
    lemma_fundamental_div_mod_converse(t1, ss, k - 1, ss - 1);
    assert(ss * k <= ss * (rs / ss)) by (nonlinear_arith)
        requires
            k <= rs / ss,
            ss > 0,
    ;
    assert(ss * (rs / ss) <= rs) by {
        vstd::arithmetic::div_mod::lemma_fundamental_div_mod(rs, ss);
        assert(rs % ss >= 0);
    }
    assert(fixed_up_bytes(s, off, rs, ss, fix)[t2] == s[off + fix + 2 + 2 * (k - 1)]);
    assert(fixed_up_bytes(s, off, rs, ss, fix)[t1] == s[off + fix + 2 + 2 * (k - 1) + 1]);
}

} // verus!
