//! Interval records and the genomic range set.
//!
//! A `Range` holds parallel start/end columns with the derived width column
//! (`width == end - start`, valid only because `end >= start` is checked for
//! every row at construction). A `GenomicRanges` adds the two run-length
//! encoded categorical columns, chromosome and strand, all columns
//! describing the same records in the same order. Construction is
//! all-or-nothing: the first offending row aborts it with that row's index.

use vstd::prelude::*;

use crate::codec::Seqnames;
use crate::codec::Strand;
use crate::codec::chroms_of;
use crate::codec::strands_of;
use crate::parse::digits_of;
use crate::parse::dec_nat;
use crate::parse::is_u64_string;
use crate::parse::parse_u64;
use crate::rle::rle;
use crate::rle::expand_runs;
use crate::rle::sum_freqs;
use crate::rle::lemma_expand_len;

verus! {

/// Why a construction was aborted: the first offending row, and for parse
/// failures which field of it.
#[derive(Clone, Copy, Debug, PartialEq, Eq, Structural)]
pub enum RangesError {
    /// No rows were supplied; there is nothing to encode.
    EmptyInput,
    /// The start field of this row is not an unsigned decimal number.
    ParseStart { row: usize },
    /// The end field of this row is not an unsigned decimal number.
    ParseEnd { row: usize },
    /// This row has `end < start`.
    EndBeforeStart { row: usize },
}

/// The numeric columns' invariant: equal lengths, `end >= start` per row,
/// and the derived `width == end - start` per row.
pub open spec fn cols_wf(start: Seq<u64>, end: Seq<u64>, width: Seq<u64>) -> bool {
    &&& end.len() == start.len()
    &&& width.len() == start.len()
    &&& forall|i: int| 0 <= i < start.len() ==> start[i] <= #[trigger] end[i]
    &&& forall|i: int| 0 <= i < start.len() ==> #[trigger] width[i] == end[i] - start[i]
}

/// Parallel start/end columns with the width derived from them.
#[derive(Debug)]
pub struct Range {
    pub start: Vec<u64>,
    pub end: Vec<u64>,
    pub width: Vec<u64>,
}

impl Range {
    /// The columns' invariant, established at construction.
    pub open spec fn wf(self) -> bool {
        cols_wf(self.start@, self.end@, self.width@)
    }

    /// Builds the record columns, validating `end >= start` for every row
    /// and deriving each row's width. Aborts at the first offending row,
    /// reporting its index; rows before it are all valid.
    pub fn new(start: Vec<u64>, end: Vec<u64>) -> (r: Result<Range, RangesError>)
        requires
            start@.len() == end@.len(),
        ensures
            match r {
                Ok(rg) => {
                    &&& rg.start@ == start@
                    &&& rg.end@ == end@
                    &&& rg.wf()
                },
                Err(RangesError::EndBeforeStart { row }) => {
                    &&& (row as int) < start@.len()
                    &&& end@[row as int] < start@[row as int]
                    &&& forall|j: int| 0 <= j < row ==> start@[j] <= #[trigger] end@[j]
                },
                Err(_) => false,
            },
    {
        let n = start.len();
        let mut width: Vec<u64> = Vec::new();
        let mut i: usize = 0;
        while i < n
            invariant
                n == start@.len(),
                end@.len() == n,
                0 <= i <= n,
                width@.len() == i,
                forall|j: int| 0 <= j < i ==> start@[j] <= #[trigger] end@[j],
                forall|j: int| 0 <= j < i ==> #[trigger] width@[j] == end@[j] - start@[j],
            decreases n - i,
        {
            let s = start[i];
            let e = end[i];
            if e < s {
                return Err(RangesError::EndBeforeStart { row: i });
            }
            width.push(e - s);
            i = i + 1;
        }
        Ok(Range { start, end, width })
    }
}

/// The genomic range set: a run-length encoded chromosome column, the three
/// parallel numeric columns, and a run-length encoded strand column, all
/// describing the same N intervals in input order.
#[derive(Debug)]
pub struct GenomicRanges {
    pub seqnames: rle<Seqnames>,
    pub start: Vec<u64>,
    pub end: Vec<u64>,
    pub width: Vec<u64>,
    pub strand: rle<Strand>,
}

impl GenomicRanges {
    /// The aggregate invariant: both encoded columns are canonical and each
    /// expands to exactly as many tags as there are numeric rows, and the
    /// numeric columns satisfy their own invariant.
    pub open spec fn wf(self) -> bool {
        &&& self.seqnames.wf()
        &&& self.strand.wf()
        &&& cols_wf(self.start@, self.end@, self.width@)
        &&& self.seqnames.expanded().len() == self.start@.len()
        &&& self.strand.expanded().len() == self.start@.len()
    }

    /// Builds a set from raw string columns: chromosome names and decimal
    /// start/end coordinates, one entry per interval. The strand of every
    /// record defaults to the unknown tag. Fails on empty input, on the
    /// first field that is not an unsigned decimal number (naming the field
    /// and the row), or on the first row with `end < start` (naming the
    /// row); rows before a reported row are all valid. The record count must
    /// fit the 32-bit run counters.
    pub fn new(seqnames: Vec<String>, start: Vec<String>, end: Vec<String>) -> (r: Result<
        GenomicRanges,
        RangesError,
    >)
        requires
            start@.len() == seqnames@.len(),
            end@.len() == seqnames@.len(),
            seqnames@.len() <= u32::MAX,
        ensures
            match r {
                Ok(g) => {
                    &&& seqnames@.len() >= 1
                    &&& g.wf()
                    &&& g.start@.len() == seqnames@.len()
                    &&& forall|i: int|
                        0 <= i < seqnames@.len() ==> {
                            &&& is_u64_string(#[trigger] start@[i]@)
                            &&& is_u64_string(end@[i]@)
                            &&& g.start@[i] as nat == dec_nat(digits_of(start@[i]@))
                            &&& g.end@[i] as nat == dec_nat(digits_of(end@[i]@))
                        }
                    &&& g.seqnames.expanded() == chroms_of(seqnames@)
                    &&& g.strand.expanded() == Seq::new(seqnames@.len(), |i: int| Strand::Unk)
                },
                Err(RangesError::EmptyInput) => seqnames@.len() == 0,
                Err(RangesError::ParseStart { row }) => {
                    &&& (row as int) < seqnames@.len()
                    &&& !is_u64_string(start@[row as int]@)
                    &&& forall|j: int|
                        0 <= j < row ==> is_u64_string(#[trigger] start@[j]@) && is_u64_string(
                            end@[j]@,
                        )
                },
                Err(RangesError::ParseEnd { row }) => {
                    &&& (row as int) < seqnames@.len()
                    &&& is_u64_string(start@[row as int]@)
                    &&& !is_u64_string(end@[row as int]@)
                    &&& forall|j: int|
                        0 <= j < row ==> is_u64_string(#[trigger] start@[j]@) && is_u64_string(
                            end@[j]@,
                        )
                },
                Err(RangesError::EndBeforeStart { row }) => {
                    &&& (row as int) < seqnames@.len()
                    &&& forall|i: int|
                        0 <= i < seqnames@.len() ==> is_u64_string(#[trigger] start@[i]@)
                            && is_u64_string(end@[i]@)
                    &&& dec_nat(digits_of(end@[row as int]@)) < dec_nat(
                        digits_of(start@[row as int]@),
                    )
                    &&& forall|j: int|
                        0 <= j < row ==> dec_nat(digits_of(#[trigger] start@[j]@)) <= dec_nat(
                            digits_of(end@[j]@),
                        )
                },
            },
    {
        let ghost snames = seqnames@;
        let n = seqnames.len();
        if n == 0 {
            return Err(RangesError::EmptyInput);
        }
        let mut starts: Vec<u64> = Vec::new();
        let mut ends: Vec<u64> = Vec::new();
        let mut i: usize = 0;
        while i < n
            invariant
                n == seqnames@.len(),
                start@.len() == n,
                end@.len() == n,
                0 <= i <= n,
                starts@.len() == i,
                ends@.len() == i,
                forall|j: int|
                    0 <= j < i ==> {
                        &&& is_u64_string(#[trigger] start@[j]@)
                        &&& is_u64_string(end@[j]@)
                        &&& starts@[j] as nat == dec_nat(digits_of(start@[j]@))
                        &&& ends@[j] as nat == dec_nat(digits_of(end@[j]@))
                    },
            decreases n - i,
        {
            let sv = match parse_u64(start[i].as_str()) {
                Some(v) => v,
                None => { return Err(RangesError::ParseStart { row: i }); },
            };
            let ev = match parse_u64(end[i].as_str()) {
                Some(v) => v,
                None => { return Err(RangesError::ParseEnd { row: i }); },
            };
            starts.push(sv);
            ends.push(ev);
            i = i + 1;
        }
        let ghost sts = starts@;
        let ghost eds = ends@;
        let rg = match Range::new(starts, ends) {
            Ok(rg) => rg,
            Err(e) => { return Err(e); },
        };
        let tags = Seqnames::str_to_enum(seqnames);
        let mut rle_seq: rle<Seqnames> = rle::<Seqnames>::new();
        rle_seq.encode_rle(tags);
        let mut strand_tags: Vec<Strand> = Vec::new();
        let mut k: usize = 0;
        while k < n
            invariant
                0 <= k <= n,
                strand_tags@.len() == k,
                forall|j: int| 0 <= j < k ==> strand_tags@[j] == Strand::Unk,
            decreases n - k,
        {
            strand_tags.push(Strand::Unk);
            k = k + 1;
        }
        proof {
            assert(strand_tags@ =~= Seq::new(snames.len(), |i: int| Strand::Unk));
        }
        let mut rle_std: rle<Strand> = rle::<Strand>::new();
        rle_std.encode_rle(strand_tags);
        Ok(
            GenomicRanges {
                seqnames: rle_seq,
                start: rg.start,
                end: rg.end,
                width: rg.width,
                strand: rle_std,
            },
        )
    }

    /// Builds a set from chromosome strings, pre-built numeric
    /// (start, end) pairs, and explicit strand strings, all of one length.
    /// Validation of `end >= start` and width derivation are as in `new`;
    /// no parsing is involved. Fails on empty input or on the first row with
    /// `end < start`, reporting its index. The record count must fit the
    /// 32-bit run counters.
    pub fn new_with_ranges(seqnames: Vec<String>, ranges: Vec<(u64, u64)>, strand: Vec<String>) -> (r:
        Result<GenomicRanges, RangesError>)
        requires
            ranges@.len() == seqnames@.len(),
            strand@.len() == seqnames@.len(),
            seqnames@.len() <= u32::MAX,
        ensures
            match r {
                Ok(g) => {
                    &&& seqnames@.len() >= 1
                    &&& g.wf()
                    &&& g.start@.len() == seqnames@.len()
                    &&& forall|i: int|
                        0 <= i < seqnames@.len() ==> g.start@[i] == (#[trigger] ranges@[i]).0
                            && g.end@[i] == ranges@[i].1
                    &&& g.seqnames.expanded() == chroms_of(seqnames@)
                    &&& g.strand.expanded() == strands_of(strand@)
                },
                Err(RangesError::EmptyInput) => seqnames@.len() == 0,
                Err(RangesError::EndBeforeStart { row }) => {
                    &&& (row as int) < seqnames@.len()
                    &&& (ranges@[row as int]).1 < (ranges@[row as int]).0
                    &&& forall|j: int|
                        0 <= j < row ==> (#[trigger] ranges@[j]).0 <= ranges@[j].1
                },
                Err(_) => false,
            },
    {
        let ghost snames = seqnames@;
        let n = seqnames.len();
        if n == 0 {
            return Err(RangesError::EmptyInput);
        }
        let mut starts: Vec<u64> = Vec::new();
        let mut ends: Vec<u64> = Vec::new();
        let mut i: usize = 0;
        while i < n
            invariant
                n == seqnames@.len(),
                ranges@.len() == n,
                0 <= i <= n,
                starts@.len() == i,
                ends@.len() == i,
                forall|j: int|
                    0 <= j < i ==> starts@[j] == (#[trigger] ranges@[j]).0 && ends@[j]
                        == ranges@[j].1,
            decreases n - i,
        {
            let p = ranges[i];
            starts.push(p.0);
            ends.push(p.1);
            i = i + 1;
        }
        let ghost sts = starts@;
        let ghost eds = ends@;
        let rg = match Range::new(starts, ends) {
            Ok(rg) => rg,
            Err(e) => { return Err(e); },
        };
        let tags = Seqnames::str_to_enum(seqnames);
        let mut rle_seq: rle<Seqnames> = rle::<Seqnames>::new();
        rle_seq.encode_rle(tags);
        let strand_tags = Strand::str_to_enum(strand);
        let mut rle_std: rle<Strand> = rle::<Strand>::new();
        rle_std.encode_rle(strand_tags);
        Ok(
            GenomicRanges {
                seqnames: rle_seq,
                start: rg.start,
                end: rg.end,
                width: rg.width,
                strand: rle_std,
            },
        )
    }
}

/// Column alignment: in a well-formed set, decoding either categorical
/// column yields exactly as many tags as the start, end and width columns
/// have rows, and each column's run counts total that same row count.
pub proof fn lemma_column_alignment(g: GenomicRanges)
    requires
        g.wf(),
    ensures
        g.seqnames.expanded().len() == g.start@.len(),
        g.strand.expanded().len() == g.start@.len(),
        g.end@.len() == g.start@.len(),
        g.width@.len() == g.start@.len(),
        sum_freqs(g.seqnames.freq@) == g.start@.len(),
        sum_freqs(g.strand.freq@) == g.start@.len(),
{
    lemma_expand_len(g.seqnames.element@, g.seqnames.freq@);
    lemma_expand_len(g.strand.element@, g.strand.freq@);
}

} // verus!
