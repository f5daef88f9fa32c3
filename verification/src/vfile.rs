//! The virtual-file abstraction.
//!
//! A [`VFile`] is a byte-addressable, random-access source of known size.
//! Reads are pure, so one immutable value serves both as the open file and
//! as the builder that hands out fresh views of it. A file is an ordered
//! list of contiguous destination ranges, each drawn from a base source:
//! an in-memory buffer, or the unbounded zero source that fills sparse
//! holes. Mapping a range of one virtual file into another flattens the
//! source file's ranges at construction, so construction is the only place
//! where range arithmetic is checked — exactly the discipline the parser
//! needs to guarantee that no read ever escapes the underlying volume.

use vstd::prelude::*;

use crate::error::NtfsError;

verus! {

/// A base byte source: an in-memory buffer, or the unbounded zero source.
#[derive(Debug)]
pub enum Source {
    Memory(Vec<u8>),
    Zero,
}

impl Source {
    /// The bytes of the source. The zero source reads as 2^64 - 1 zero
    /// bytes, "effectively unbounded" for every mapping drawn from it.
    pub open spec fn sview(&self) -> Seq<u8> {
        match self {
            Source::Memory(d) => d@,
            Source::Zero => Seq::new(u64::MAX as nat, |i: int| 0u8),
        }
    }

    /// An identical copy (buffers are copied byte for byte).
    pub fn duplicate(&self) -> (r: Source)
        ensures
            r.sview() == self.sview(),
    {
        match self {
            Source::Memory(d) => Source::Memory(copy_bytes(d)),
            Source::Zero => Source::Zero,
        }
    }
}

fn copy_bytes(d: &Vec<u8>) -> (r: Vec<u8>)
    ensures
        r@ == d@,
{
    let mut r: Vec<u8> = Vec::new();
    let mut i: usize = 0;
    while i < d.len()
        invariant
            i <= d.len(),
            r@ == d@.subrange(0, i as int),
        decreases d.len() - i,
    {
        r.push(d[i]);
        proof {
            assert(r@ =~= d@.subrange(0, i + 1));
        }
        i = i + 1;
    }
    proof {
        assert(r@ =~= d@);
    }
    r
}

/// One destination range of a virtual file: bytes `[dst_start, dst_end)` of
/// the file are bytes `[src_offset, src_offset + (dst_end - dst_start))` of
/// the base source.
#[derive(Debug)]
pub struct FileRange {
    pub dst_start: u64,
    pub dst_end: u64,
    pub src_offset: u64,
    pub src: Source,
}

impl FileRange {
    /// A range is non-empty, lies entirely within its source, and its source
    /// window stays within 64-bit offsets.
    pub open spec fn wf(&self) -> bool {
        &&& self.dst_start < self.dst_end
        &&& self.src_offset + (self.dst_end - self.dst_start) <= self.src.sview().len()
        &&& self.src_offset + (self.dst_end - self.dst_start) <= u64::MAX
    }

    /// The bytes the range contributes to the file.
    pub open spec fn bytes(&self) -> Seq<u8> {
        self.src.sview().subrange(
            self.src_offset as int,
            self.src_offset + (self.dst_end - self.dst_start),
        )
    }
}

/// The ranges are individually well formed and tile `[0, last.dst_end)`
/// without gap or overlap.
pub open spec fn ranges_wf(rs: Seq<FileRange>) -> bool {
    &&& forall|i: int| 0 <= i < rs.len() ==> (#[trigger] rs[i]).wf()
    &&& rs.len() > 0 ==> rs[0].dst_start == 0
    &&& forall|i: int, j: int|
        #![trigger rs[i], rs[j]]
        0 <= i && i + 1 == j && j < rs.len() ==> rs[j].dst_start == rs[i].dst_end
}

/// The concatenated bytes of a list of ranges.
pub open spec fn ranges_bytes(rs: Seq<FileRange>) -> Seq<u8>
    decreases rs.len(),
{
    if rs.len() == 0 {
        Seq::empty()
    } else {
        ranges_bytes(rs.drop_last()) + rs.last().bytes()
    }
}

proof fn lemma_ranges_wf_drop_last(rs: Seq<FileRange>)
    requires
        ranges_wf(rs),
        rs.len() > 0,
    ensures
        ranges_wf(rs.drop_last()),
{
}

/// Under `ranges_wf`, the concatenation is exactly as long as the last
/// range's destination end.
pub proof fn lemma_ranges_bytes_len(rs: Seq<FileRange>)
    requires
        ranges_wf(rs),
    ensures
        ranges_bytes(rs).len() == if rs.len() == 0 {
            0int
        } else {
            rs.last().dst_end as int
        },
    decreases rs.len(),
{
    if rs.len() > 0 {
        lemma_ranges_wf_drop_last(rs);
        lemma_ranges_bytes_len(rs.drop_last());
    }
}

/// Under `ranges_wf`, position `p` inside range `i` reads from that range.
proof fn lemma_ranges_bytes_index(rs: Seq<FileRange>, i: int, p: int)
    requires
        ranges_wf(rs),
        0 <= i < rs.len(),
        rs[i].dst_start <= p < rs[i].dst_end,
    ensures
        0 <= p < ranges_bytes(rs).len(),
        ranges_bytes(rs)[p] == rs[i].bytes()[p - rs[i].dst_start],
    decreases rs.len(),
{
    lemma_ranges_bytes_len(rs);
    lemma_ranges_wf_drop_last(rs);
    lemma_ranges_bytes_len(rs.drop_last());
    if i == rs.len() - 1 {
        if rs.len() > 1 {
            assert(rs[i].dst_start == rs[i - 1].dst_end);
        }
    } else {
        lemma_ranges_bytes_index(rs.drop_last(), i, p);
    }
}

/// A byte-addressable random-access file of known size.
#[derive(Debug)]
pub struct VFile {
    ranges: Vec<FileRange>,
}

impl View for VFile {
    type V = Seq<u8>;

    /// The file is its byte sequence.
    closed spec fn view(&self) -> Seq<u8> {
        ranges_bytes(self.ranges@)
    }
}

impl VFile {
    /// The ranges tile the file contiguously and stay within their sources,
    /// so no read can escape the underlying buffers.
    pub closed spec fn wf(&self) -> bool {
        ranges_wf(self.ranges@)
    }

    /// The empty file.
    pub fn empty() -> (r: VFile)
        ensures
            r.wf(),
            r@ == Seq::<u8>::empty(),
    {
        VFile { ranges: Vec::new() }
    }

    /// A file that serves reads from the given buffer.
    pub fn memory(data: Vec<u8>) -> (r: VFile)
        ensures
            r.wf(),
            r@ == data@,
    {
        if data.len() == 0 {
            let r = VFile::empty();
            proof {
                assert(r@ =~= data@);
            }
            r
        } else {
            let ghost gdata = data@;
            let end = data.len() as u64;
            let range = FileRange {
                dst_start: 0,
                dst_end: end,
                src_offset: 0,
                src: Source::Memory(data),
            };
            let mut ranges: Vec<FileRange> = Vec::new();
            ranges.push(range);
            let r = VFile { ranges };
            proof {
                assert(r.ranges@.drop_last() =~= Seq::<FileRange>::empty());
                assert(ranges_bytes(Seq::<FileRange>::empty()) =~= Seq::<u8>::empty());
                assert(r@ =~= gdata);
            }
            r
        }
    }

    /// The zero file: 2^64 - 1 bytes, every one of them zero. It backs the
    /// sparse holes of non-resident attributes.
    pub fn zero() -> (r: VFile)
        ensures
            r.wf(),
            r@.len() == u64::MAX,
            forall|i: int| 0 <= i < r@.len() ==> r@[i] == 0,
    {
        let range = FileRange {
            dst_start: 0,
            dst_end: u64::MAX,
            src_offset: 0,
            src: Source::Zero,
        };
        let mut ranges: Vec<FileRange> = Vec::new();
        ranges.push(range);
        let r = VFile { ranges };
        proof {
            assert(r.ranges@.drop_last() =~= Seq::<FileRange>::empty());
            assert(ranges_bytes(Seq::<FileRange>::empty()) =~= Seq::<u8>::empty());
            lemma_ranges_bytes_len(r.ranges@);
            assert forall|i: int| 0 <= i < r@.len() implies r@[i] == 0 by {
                lemma_ranges_bytes_index(r.ranges@, 0, i);
            }
        }
        r
    }

    /// The size of the file in bytes.
    pub fn size(&self) -> (r: u64)
        requires
            self.wf(),
        ensures
            r == self@.len(),
    {
        proof {
            lemma_ranges_bytes_len(self.ranges@);
        }
        if self.ranges.len() == 0 {
            0
        } else {
            self.ranges[self.ranges.len() - 1].dst_end
        }
    }

    /// Appends `length` bytes to this file, drawn from `src` starting at
    /// `src_offset`: the mapped-file constructor. The window must lie inside
    /// `src`, which construction thereby enforces once and for all.
    #[verifier::rlimit(50)]
    pub fn push(&mut self, length: u64, src: &VFile, src_offset: u64)
        requires
            old(self).wf(),
            src.wf(),
            src_offset + length <= src@.len(),
            old(self)@.len() + length <= u64::MAX,
        ensures
            final(self).wf(),
            final(self)@ == old(self)@ + src@.subrange(src_offset as int, src_offset + length),
    {
        proof {
            lemma_ranges_bytes_len(src.ranges@);
            lemma_ranges_bytes_len(old(self).ranges@);
        }
        let w_lo = src_offset;
        let w_hi = src_offset + length;
        let ghost orig = self@;
        let mut j: usize = 0;
        while j < src.ranges.len()
            invariant
                self.wf(),
                src.wf(),
                w_lo == src_offset,
                w_hi == src_offset + length,
                w_hi <= src@.len(),
                orig.len() + length <= u64::MAX,
                j <= src.ranges.len(),
                self@ == orig + src@.subrange(w_lo as int, clip(src_end_at(src.ranges@, j as int), w_lo as int, w_hi as int)),
            decreases src.ranges.len() - j,
        {
            let ghost cj = clip(src_end_at(src.ranges@, j as int), w_lo as int, w_hi as int);
            let ghost cj1 = clip(src_end_at(src.ranges@, j + 1), w_lo as int, w_hi as int);
            let r = &src.ranges[j];
            let ov_lo = if r.dst_start > w_lo {
                r.dst_start
            } else {
                w_lo
            };
            let ov_hi = if r.dst_end < w_hi {
                r.dst_end
            } else {
                w_hi
            };
            if ov_lo < ov_hi {
                proof {
                    lemma_ranges_bytes_len(self.ranges@);
                    lemma_ranges_bytes_len(src.ranges@);
                    if j > 0 {
                        assert(src.ranges@[j as int].dst_start == src.ranges@[j - 1].dst_end);
                    }
                    assert(ov_lo == cj);
                    assert(ov_hi == cj1);
                }
                let cur = self.size();
                let piece_len = ov_hi - ov_lo;
                let piece = FileRange {
                    dst_start: cur,
                    dst_end: cur + piece_len,
                    src_offset: r.src_offset + (ov_lo - r.dst_start),
                    src: r.src.duplicate(),
                };
                let ghost pre = self.ranges@;
                self.ranges.push(piece);
                proof {
                    assert(self.ranges@.drop_last() =~= pre);
                    assert(piece.wf());
                    assert(ranges_wf(self.ranges@)) by {
                        assert(forall|i: int|
                            0 <= i < pre.len() ==> self.ranges@[i] == #[trigger] pre[i]);
                    }
                    assert(piece.bytes() =~= src@.subrange(ov_lo as int, ov_hi as int)) by {
                        assert forall|k: int| 0 <= k < ov_hi - ov_lo implies piece.bytes()[k]
                            == src@.subrange(ov_lo as int, ov_hi as int)[k] by {
                            lemma_ranges_bytes_index(src.ranges@, j as int, ov_lo + k);
                        }
                    }
                    assert(self@ == ranges_bytes(pre) + piece.bytes());
                    assert(self@ =~= orig + src@.subrange(w_lo as int, cj1));
                }
            } else {
                proof {
                    lemma_ranges_bytes_len(src.ranges@);
                    if j > 0 {
                        assert(src.ranges@[j as int].dst_start == src.ranges@[j - 1].dst_end);
                    }
                    assert(src@.subrange(w_lo as int, cj1) =~= src@.subrange(w_lo as int, cj));
                }
            }
            j = j + 1;
        }
        proof {
            lemma_ranges_bytes_len(src.ranges@);
            assert(self@ =~= orig + src@.subrange(w_lo as int, w_hi as int));
        }
    }

    /// Byte `pos` of the file.
    pub fn read_byte(&self, pos: u64) -> (r: u8)
        requires
            self.wf(),
            pos < self@.len(),
        ensures
            r == self@[pos as int],
    {
        proof {
            lemma_ranges_bytes_len(self.ranges@);
        }
        let mut j: usize = 0;
        loop
            invariant
                self.wf(),
                pos < self@.len(),
                j < self.ranges.len(),
                pos >= src_end_at(self.ranges@, j as int),
            decreases self.ranges.len() - j,
        {
            let r = &self.ranges[j];
            if pos < r.dst_end {
                proof {
                    lemma_ranges_bytes_index(self.ranges@, j as int, pos as int);
                }
                let delta = pos - r.dst_start;
                match &r.src {
                    Source::Memory(d) => {
                        let dl = d.len();
                        proof {
                            assert(r.src_offset + delta < dl);
                        }
                        let idx = r.src_offset + delta;
                        return d[idx as usize];
                    },
                    Source::Zero => {
                        return 0;
                    },
                }
            }
            proof {
                lemma_ranges_bytes_len(self.ranges@);
                assert(j + 1 < self.ranges@.len()) by {
                    if j + 1 == self.ranges@.len() {
                        assert(pos >= self.ranges@.last().dst_end);
                    }
                }
            }
            j = j + 1;
        }
    }

    /// Reads exactly `length` bytes starting at `offset`. Fails, without
    /// reading anything, when the window reaches past the end of the file.
    pub fn read_exact(&self, offset: u64, length: usize) -> (r: Result<Vec<u8>, NtfsError>)
        requires
            self.wf(),
        ensures
            match r {
                Ok(d) => offset + length <= self@.len() && d@ == self@.subrange(
                    offset as int,
                    offset + length,
                ),
                Err(e) => e == NtfsError::ReadOutOfBounds && offset + length > self@.len(),
            },
    {
        let sz = self.size();
        if offset > sz || length as u64 > sz - offset {
            return Err(NtfsError::ReadOutOfBounds);
        }
        let mut d: Vec<u8> = Vec::new();
        let mut k: usize = 0;
        while k < length
            invariant
                self.wf(),
                k <= length,
                offset + length <= self@.len(),
                self@.len() <= u64::MAX,
                d@ == self@.subrange(offset as int, offset + k),
            decreases length - k,
        {
            let b = self.read_byte(offset + k as u64);
            d.push(b);
            proof {
                assert(d@ =~= self@.subrange(offset as int, offset + k + 1));
            }
            k = k + 1;
        }
        Ok(d)
    }

    /// Caches the whole file in one buffer, the eager "memory builder".
    /// Fails only when the file is too large to hold in a single buffer.
    pub fn to_memory(&self) -> (r: Result<VFile, NtfsError>)
        requires
            self.wf(),
        ensures
            match r {
                Ok(m) => m.wf() && m@ == self@ && self@.len() <= usize::MAX,
                Err(e) => e == NtfsError::ReadOutOfBounds && self@.len() > usize::MAX,
            },
    {
        let sz = self.size();
        if sz > usize::MAX as u64 {
            return Err(NtfsError::ReadOutOfBounds);
        }
        match self.read_exact(0, sz as usize) {
            Ok(d) => {
                let m = VFile::memory(d);
                proof {
                    assert(self@.subrange(0, self@.len() as int) =~= self@);
                }
                Ok(m)
            },
            Err(e) => Err(e),
        }
    }
}

/// Two ranges that map the same destination window to sources with the
/// same bytes.
pub open spec fn range_congruent(a: FileRange, b: FileRange) -> bool {
    &&& a.dst_start == b.dst_start
    &&& a.dst_end == b.dst_end
    &&& a.src_offset == b.src_offset
    &&& a.src.sview() == b.src.sview()
}

proof fn lemma_ranges_bytes_congruent(a: Seq<FileRange>, b: Seq<FileRange>)
    requires
        a.len() == b.len(),
        forall|k: int| 0 <= k < a.len() ==> range_congruent(#[trigger] a[k], b[k]),
    ensures
        ranges_bytes(a) == ranges_bytes(b),
    decreases a.len(),
{
    if a.len() > 0 {
        lemma_ranges_bytes_congruent(a.drop_last(), b.drop_last());
        assert(a.last().bytes() =~= b.last().bytes());
    }
}

impl VFile {
    /// An identical copy of the file; its buffers are copied byte for byte.
    pub fn duplicate(&self) -> (r: VFile)
        ensures
            r@ == self@,
            self.wf() ==> r.wf(),
    {
        let mut ranges: Vec<FileRange> = Vec::new();
        let mut i: usize = 0;
        while i < self.ranges.len()
            invariant
                i <= self.ranges.len(),
                ranges@.len() == i,
                forall|k: int|
                    0 <= k < i ==> range_congruent(#[trigger] ranges@[k], self.ranges@[k]),
            decreases self.ranges.len() - i,
        {
            let src = &self.ranges[i];
            let piece = FileRange {
                dst_start: src.dst_start,
                dst_end: src.dst_end,
                src_offset: src.src_offset,
                src: src.src.duplicate(),
            };
            ranges.push(piece);
            i = i + 1;
        }
        let r = VFile { ranges };
        proof {
            lemma_ranges_bytes_congruent(r.ranges@, self.ranges@);
            if self.wf() {
                assert forall|k: int| 0 <= k < r.ranges@.len() implies (#[trigger] r.ranges@[k]).wf()
                    by {
                    assert(range_congruent(r.ranges@[k], self.ranges@[k]));
                    assert(self.ranges@[k].wf());
                }
                assert(ranges_wf(r.ranges@)) by {
                    assert forall|i0: int, j0: int|
                        0 <= i0 && i0 + 1 == j0 && j0 < r.ranges@.len() implies (
                    #[trigger] r.ranges@[j0]).dst_start == (#[trigger] r.ranges@[i0]).dst_end by {
                        assert(range_congruent(r.ranges@[i0], self.ranges@[i0]));
                        assert(range_congruent(r.ranges@[j0], self.ranges@[j0]));
                        assert(self.ranges@[j0].dst_start == self.ranges@[i0].dst_end);
                    }
                }
            }
        }
        r
    }
}

/// The destination end of the first `j` ranges: 0 when `j == 0`, else the
/// `dst_end` of range `j - 1`.
pub open spec fn src_end_at(rs: Seq<FileRange>, j: int) -> int {
    if j <= 0 {
        0
    } else {
        rs[j - 1].dst_end as int
    }
}

/// Clamps `e` into `[lo, hi]`.
pub open spec fn clip(e: int, lo: int, hi: int) -> int {
    if e < lo {
        lo
    } else if e > hi {
        hi
    } else {
        e
    }
}

} // verus!
