//! The volume allocation bitmap.
//!
//! Bit `i` of byte `b` (least significant bit first) tells whether cluster
//! `b * 8 + i` is allocated. The decoder returns the maximal runs of
//! clear bits: the unallocated cluster ranges, each inclusive of both
//! endpoints.

use vstd::prelude::*;

use crate::bytes::pow2i;
use crate::bytes::pow2_u32;
use crate::error::NtfsError;
use crate::vfile::VFile;

verus! {

/// An inclusive range of clusters.
#[derive(Debug, Clone, Copy, PartialEq, Eq, Structural)]
pub struct ClusterRange {
    pub start: u64,
    pub end: u64,
}

/// Whether cluster `i` is allocated in bitmap `s`: bit `i % 8` of byte
/// `i / 8`, least significant bit first.
pub open spec fn spec_bit(s: Seq<u8>, i: int) -> bool {
    (s[i / 8] as int) / pow2i((i % 8) as nat) % 2 == 1
}

/// The ranges are exactly the maximal runs of clear bits of `s`: every
/// listed cluster is clear, every clear cluster is listed, the runs are in
/// order, and each run is bounded by set bits or the bitmap's ends.
pub open spec fn spec_bitmap_ranges(ranges: Seq<ClusterRange>, s: Seq<u8>) -> bool {
    let total = 8 * s.len();
    &&& forall|k: int|
        0 <= k < ranges.len() ==> {
            let r = #[trigger] ranges[k];
            &&& r.start <= r.end < total
            &&& (forall|x: int| r.start <= x <= r.end ==> !spec_bit(s, x))
            &&& (r.start == 0 || spec_bit(s, r.start - 1))
            &&& (r.end + 1 == total || spec_bit(s, r.end + 1))
        }
    &&& forall|k: int, k2: int|
        0 <= k < k2 < ranges.len() ==> (#[trigger] ranges[k]).end < (#[trigger] ranges[k2]).start
    &&& forall|x: int|
        0 <= x < total && !spec_bit(s, x) ==> exists|k: int|
            0 <= k < ranges.len() && (#[trigger] ranges[k]).start <= x <= ranges[k].end
}

/// The bitmap decoder.
#[derive(Debug)]
pub struct Bitmap {}

impl Bitmap {
    /// Decodes the bitmap content into its unallocated cluster ranges.
    pub fn new(content: &VFile) -> (r: Result<Vec<ClusterRange>, NtfsError>)
        requires
            content.wf(),
            content@.len() <= usize::MAX,
            content@.len() * 8 <= u64::MAX,
        ensures
            match r {
                Ok(ranges) => spec_bitmap_ranges(ranges@, content@),
                Err(_) => false,
            },
    {
        let ghost s = content@;
        let size = content.size();
        let data = match content.read_exact(0, size as usize) {
            Ok(d) => d,
            Err(_) => {
                proof {
                    assert(false);
                }
                return Err(NtfsError::ReadOutOfBounds);
            },
        };
        proof {
            assert(data@ =~= s);
        }
        let total: u64 = 8 * (data.len() as u64);
        let mut ranges: Vec<ClusterRange> = Vec::new();
        let mut open_start: Option<u64> = None;
        let mut c: u64 = 0;
        while c < total
            invariant
                s == data@,
                total == 8 * s.len(),
                data@.len() <= usize::MAX,
                0 <= c <= total,
                forall|k: int|
                    0 <= k < ranges@.len() ==> {
                        let r = #[trigger] ranges@[k];
                        &&& r.start <= r.end
                        &&& r.end + 1 < c
                        &&& (forall|x: int| r.start <= x <= r.end ==> !spec_bit(s, x))
                        &&& (r.start == 0 || spec_bit(s, r.start - 1))
                        &&& spec_bit(s, r.end + 1)
                    },
                forall|k: int, k2: int|
                    0 <= k < k2 < ranges@.len() ==> (#[trigger] ranges@[k]).end < (
                    #[trigger] ranges@[k2]).start,
                match open_start {
                    Some(st) => {
                        &&& st < c
                        &&& (forall|x: int| st <= x < c ==> !spec_bit(s, x))
                        &&& (st == 0 || spec_bit(s, st - 1))
                        &&& (forall|k: int|
                            0 <= k < ranges@.len() ==> (#[trigger] ranges@[k]).end < st)
                    },
                    None => c == 0 || spec_bit(s, c - 1),
                },
                forall|x: int|
                    0 <= x < c && !spec_bit(s, x) ==> (match open_start {
                        Some(st) => st <= x,
                        None => false,
                    }) || (exists|k: int|
                        0 <= k < ranges@.len() && (#[trigger] ranges@[k]).start <= x
                            <= ranges@[k].end),
            decreases total - c,
        {
            let byte = data[(c / 8) as usize];
            let p = pow2_u32((c % 8) as u8);
            let bit = (byte as u32 / p) % 2 == 1;
            proof {
                assert(bit == spec_bit(s, c as int));
            }
            if bit {
                match open_start {
                    Some(st) => {
                        let ghost pre = ranges@;
                        ranges.push(ClusterRange { start: st, end: c - 1 });
                        open_start = None;
                        proof {
                            assert(forall|k: int|
                                0 <= k < pre.len() ==> #[trigger] ranges@[k] == pre[k]);
                            assert(ranges@[pre.len() as int] == ClusterRange {
                                start: st,
                                end: (c - 1) as u64,
                            });
                            assert forall|x: int|
                                0 <= x < c + 1 && !spec_bit(s, x) implies exists|k: int|
                                0 <= k < ranges@.len() && (#[trigger] ranges@[k]).start <= x
                                    <= ranges@[k].end by {
                                if st <= x {
                                    assert(ranges@[pre.len() as int].start <= x <= ranges@[pre.len()
                                        as int].end);
                                } else {
                                    let k0 = choose|k: int|
                                        0 <= k < pre.len() && (#[trigger] pre[k]).start <= x
                                            <= pre[k].end;
                                    assert(ranges@[k0].start <= x <= ranges@[k0].end);
                                }
                            }
                        }
                    },
                    None => {},
                }
            } else {
                match open_start {
                    Some(_) => {},
                    None => {
                        open_start = Some(c);
                    },
                }
            }
            c = c + 1;
        }
        match open_start {
            Some(st) => {
                let ghost pre = ranges@;
                ranges.push(ClusterRange { start: st, end: total - 1 });
                proof {
                    assert(forall|k: int| 0 <= k < pre.len() ==> #[trigger] ranges@[k] == pre[k]);
                    assert(ranges@[pre.len() as int] == ClusterRange {
                        start: st,
                        end: (total - 1) as u64,
                    });
                    assert forall|x: int|
                        0 <= x < total && !spec_bit(s, x) implies exists|k: int|
                        0 <= k < ranges@.len() && (#[trigger] ranges@[k]).start <= x
                            <= ranges@[k].end by {
                        if st <= x {
                            assert(ranges@[pre.len() as int].start <= x <= ranges@[pre.len()
                                as int].end);
                        } else {
                            let k0 = choose|k: int|
                                0 <= k < pre.len() && (#[trigger] pre[k]).start <= x <= pre[k].end;
                            assert(ranges@[k0].start <= x <= ranges@[k0].end);
                        }
                    }
                }
            },
            None => {},
        }
        proof {
            assert(spec_bitmap_ranges(ranges@, s));
        }
        Ok(ranges)
    }
}

} // verus!
