//! The freespace view: the unallocated regions of the volume, read from
//! the $Bitmap attribute and concatenated into one contiguous stream.

use vstd::prelude::*;

use crate::attributes::bitmap::spec_bitmap_ranges;
use crate::attributes::bitmap::Bitmap;
use crate::attributes::bitmap::ClusterRange;
use crate::error::NtfsError;
use crate::vfile::VFile;

verus! {

/// The bytes of the unallocated regions: for each cluster range, bytes
/// `start * cs` through `(end + 1) * cs` of the volume, in order.
pub open spec fn spec_freespace_bytes(ranges: Seq<ClusterRange>, vol: Seq<u8>, cs: int) -> Seq<u8>
    decreases ranges.len(),
{
    if ranges.len() == 0 {
        Seq::empty()
    } else {
        spec_freespace_bytes(ranges.drop_last(), vol, cs) + vol.subrange(
            ranges.last().start * cs,
            (ranges.last().end + 1) * cs,
        )
    }
}

/// Every range's bytes lie within the volume: range `j` ends at byte
/// `(end_j + 1) * cs`.
pub open spec fn spec_ranges_in_volume(ranges: Seq<ClusterRange>, vol_len: int, cs: int) -> bool {
    forall|k: int| 0 <= k < ranges.len() ==> ((#[trigger] ranges[k]).end + 1) * cs <= vol_len
}

/// The total byte length of the ranges: the sum over `j` of
/// `(end_j - start_j + 1) * cs`.
pub open spec fn spec_ranges_byte_total(ranges: Seq<ClusterRange>, cs: int) -> int
    decreases ranges.len(),
{
    if ranges.len() == 0 {
        0
    } else {
        spec_ranges_byte_total(ranges.drop_last(), cs) + (ranges.last().end - ranges.last().start
            + 1) * cs
    }
}

/// The freespace stream is exactly as long as the ranges' byte total.
pub proof fn lemma_freespace_len(ranges: Seq<ClusterRange>, vol: Seq<u8>, cs: int)
    requires
        cs >= 0,
        forall|k: int| 0 <= k < ranges.len() ==> (#[trigger] ranges[k]).start <= ranges[k].end,
        spec_ranges_in_volume(ranges, vol.len() as int, cs),
    ensures
        spec_freespace_bytes(ranges, vol, cs).len() == spec_ranges_byte_total(ranges, cs),
        spec_ranges_byte_total(ranges, cs) >= 0,
    decreases ranges.len(),
{
    if ranges.len() > 0 {
        assert(forall|k: int|
            0 <= k < ranges.len() - 1 ==> ranges.drop_last()[k] == #[trigger] ranges[k]);
        assert(spec_ranges_in_volume(ranges.drop_last(), vol.len() as int, cs));
        lemma_freespace_len(ranges.drop_last(), vol, cs);
        let last = ranges.last();
        assert((last.end - last.start + 1) * cs >= 0 && last.start * cs >= 0 && last.start * cs
            <= (last.end + 1) * cs && (last.end + 1) * cs - last.start * cs == (last.end
            - last.start + 1) * cs) by (nonlinear_arith)
            requires
                0 <= last.start <= last.end,
                cs >= 0,
        ;
    }
}

/// Byte totals only grow as ranges are appended.
proof fn lemma_ranges_total_prefix(ranges: Seq<ClusterRange>, k: int, cs: int)
    requires
        0 <= k <= ranges.len(),
        cs >= 0,
        forall|j: int| 0 <= j < ranges.len() ==> (#[trigger] ranges[j]).start <= ranges[j].end,
    ensures
        spec_ranges_byte_total(ranges.take(k), cs) <= spec_ranges_byte_total(ranges, cs),
    decreases ranges.len() - k,
{
    if k < ranges.len() {
        lemma_ranges_total_prefix(ranges, k + 1, cs);
        assert(ranges.take(k + 1).drop_last() =~= ranges.take(k));
        assert(ranges.take(k + 1).last() == ranges[k]);
        assert((ranges[k].end - ranges[k].start + 1) * cs >= 0) by (nonlinear_arith)
            requires
                ranges[k].start <= ranges[k].end,
                cs >= 0,
        ;
    } else {
        assert(ranges.take(k) =~= ranges);
    }
}

/// Builds the freespace stream: decodes the bitmap into its unallocated
/// cluster ranges and maps each range's bytes of the volume, one after the
/// other. Succeeds exactly when the bitmap is small enough to decode,
/// every unallocated range lies within the volume, and the total stream
/// length fits 64 bits.
pub fn freespace_builder(builder: &VFile, parent_builder: &VFile, cluster_size: u64) -> (r: Result<
    VFile,
    NtfsError,
>)
    requires
        builder.wf(),
        parent_builder.wf(),
    ensures
        r matches Ok(vf) ==> vf.wf() && exists|ranges: Seq<ClusterRange>|
            #[trigger] spec_bitmap_ranges(ranges, builder@) && spec_ranges_in_volume(
                ranges,
                parent_builder@.len() as int,
                cluster_size as int,
            ) && spec_ranges_byte_total(ranges, cluster_size as int) <= u64::MAX && vf@
                == spec_freespace_bytes(ranges, parent_builder@, cluster_size as int),
        r matches Err(e) ==> e == NtfsError::ReadOutOfBounds && (builder@.len() > usize::MAX
            || builder@.len() * 8 > u64::MAX || exists|ranges: Seq<ClusterRange>|
            #[trigger] spec_bitmap_ranges(ranges, builder@) && !(spec_ranges_in_volume(
                ranges,
                parent_builder@.len() as int,
                cluster_size as int,
            ) && spec_ranges_byte_total(ranges, cluster_size as int) <= u64::MAX)),
{
    let bitmap_size = builder.size();
    if bitmap_size > usize::MAX as u64 || bitmap_size > u64::MAX / 8 {
        return Err(NtfsError::ReadOutOfBounds);
    }
    let ranges = match Bitmap::new(builder) {
        Ok(rs) => rs,
        Err(_) => {
            proof {
                assert(false);
            }
            return Err(NtfsError::ReadOutOfBounds);
        },
    };
    let ghost granges = ranges@;
    let vol_size = parent_builder.size();
    let cs = cluster_size;
    let mut vf = VFile::empty();
    let mut k: usize = 0;
    while k < ranges.len()
        invariant
            builder.wf(),
            parent_builder.wf(),
            spec_bitmap_ranges(ranges@, builder@),
            builder@.len() * 8 <= u64::MAX,
            vol_size == parent_builder@.len(),
            cs == cluster_size,
            granges == ranges@,
            k <= ranges@.len(),
            vf.wf(),
            vf@ == spec_freespace_bytes(ranges@.take(k as int), parent_builder@, cs as int),
            vf@.len() == spec_ranges_byte_total(ranges@.take(k as int), cs as int),
            vf@.len() <= u64::MAX,
            forall|j: int|
                0 <= j < k ==> ((#[trigger] ranges@[j]).end + 1) * cs <= parent_builder@.len(),
        decreases ranges@.len() - k,
    {
        let range = ranges[k];
        proof {
            assert(forall|j: int|
                0 <= j < granges.len() ==> (#[trigger] granges[j]).start <= granges[j].end);
            assert(ranges@[k as int].start <= ranges@[k as int].end);
            assert(ranges@[k as int].end < 8 * builder@.len());
        }
        // The range's last byte, (end + 1) * cs, must lie within the volume.
        let end_bytes = match range.end.checked_mul(cs) {
            Some(v) => v,
            None => {
                proof {
                    assert((range.end + 1) * cs >= range.end * cs) by (nonlinear_arith)
                        requires
                            cs >= 0,
                            range.end >= 0,
                    ;
                    lemma_range_escapes(granges, k as int, vol_size as int, cs as int);
                }
                return Err(NtfsError::ReadOutOfBounds);
            },
        };
        let end_bytes = match end_bytes.checked_add(cs) {
            Some(v) => v,
            None => {
                proof {
                    assert((range.end + 1) * cs == range.end * cs + cs) by (nonlinear_arith);
                    lemma_range_escapes(granges, k as int, vol_size as int, cs as int);
                }
                return Err(NtfsError::ReadOutOfBounds);
            },
        };
        if end_bytes > vol_size {
            proof {
                assert((range.end + 1) * cs == range.end * cs + cs) by (nonlinear_arith);
                lemma_range_escapes(granges, k as int, vol_size as int, cs as int);
            }
            return Err(NtfsError::ReadOutOfBounds);
        }
        proof {
            assert((range.end + 1) * cs == range.end * cs + cs) by (nonlinear_arith);
            assert(range.start * cs <= range.end * cs && 0 <= range.start * cs)
                by (nonlinear_arith)
                requires
                    0 <= range.start <= range.end,
                    cs >= 0,
            ;
        }
        let offset = range.start * cs;
        let span = end_bytes - offset;
        let cur = vf.size();
        if span > u64::MAX - cur {
            proof {
                assert(span == (range.end - range.start + 1) * cs) by (nonlinear_arith)
                    requires
                        end_bytes == (range.end + 1) * cs,
                        offset == range.start * cs,
                        span == end_bytes - offset,
                ;
                lemma_ranges_total_prefix(granges, k + 1, cs as int);
                assert(granges.take(k + 1).drop_last() =~= granges.take(k as int));
                assert(granges.take(k + 1).last() == granges[k as int]);
            }
            return Err(NtfsError::ReadOutOfBounds);
        }
        vf.push(span, parent_builder, offset);
        proof {
            assert(ranges@.take(k + 1).drop_last() =~= ranges@.take(k as int));
            assert(ranges@.take(k + 1).last() == ranges@[k as int]);
            assert((range.end + 1) * cs == range.end * cs + cs) by (nonlinear_arith);
            assert(range.start * cs + (range.end - range.start + 1) * cs == (range.end + 1) * cs)
                by (nonlinear_arith);
            assert(vf@ =~= spec_freespace_bytes(
                ranges@.take(k + 1),
                parent_builder@,
                cs as int,
            ));
        }
        k = k + 1;
    }
    proof {
        assert(ranges@.take(ranges@.len() as int) =~= ranges@);
        assert(spec_ranges_in_volume(granges, parent_builder@.len() as int, cs as int));
    }
    Ok(vf)
}

/// A range whose last byte falls outside the volume is a witness that the
/// unallocated ranges do not all map within it.
proof fn lemma_range_escapes(ranges: Seq<ClusterRange>, k: int, vol_len: int, cs: int)
    requires
        0 <= k < ranges.len(),
        (ranges[k].end + 1) * cs > vol_len,
    ensures
        !spec_ranges_in_volume(ranges, vol_len, cs),
{
}

/// The freespace view of a volume.
#[derive(Debug, Clone, Copy, PartialEq, Eq, Structural)]
pub struct Unallocated {}

impl Unallocated {
    /// A fresh freespace marker.
    pub fn new() -> (r: Unallocated)
        ensures
            r == (Unallocated {  }),
    {
        Unallocated {  }
    }
}

impl Default for Unallocated {
    fn default() -> (r: Unallocated)
        ensures
            r == (Unallocated {  }),
    {
        Unallocated::new()
    }
}

} // verus!
