//! Categorical codec: a closed set of chromosome and strand tags, and the
//! total, case-sensitive mapping from raw strings onto those tags.
//!
//! Every string maps to exactly one tag; anything outside the recognized
//! literal table maps to the `Unk` fallback, never to an error.

use vstd::prelude::*;

verus! {

/// Chromosome tag: the closed set `chr1`..`chr22`, `chrX`, `chrY`, plus the
/// `Unk` fallback for every unrecognized string.
#[derive(Clone, Copy, Debug, PartialEq, Eq, Structural)]
pub enum Seqnames {
    Chr1,
    Chr2,
    Chr3,
    Chr4,
    Chr5,
    Chr6,
    Chr7,
    Chr8,
    Chr9,
    Chr10,
    Chr11,
    Chr12,
    Chr13,
    Chr14,
    Chr15,
    Chr16,
    Chr17,
    Chr18,
    Chr19,
    Chr20,
    Chr21,
    Chr22,
    ChrX,
    ChrY,
    Unk,
}

/// Strand tag: forward (`+`), reverse (`-`), or the `Unk` fallback.
#[derive(Clone, Copy, Debug, PartialEq, Eq, Structural)]
pub enum Strand {
    Forward,
    Reverse,
    Unk,
}

/// The chromosome tag a raw string denotes. Total: unrecognized strings
/// denote `Unk`.
pub open spec fn chrom_of(s: Seq<char>) -> Seqnames {
    if s == "chr1"@ {
        Seqnames::Chr1
    } else if s == "chr2"@ {
        Seqnames::Chr2
    } else if s == "chr3"@ {
        Seqnames::Chr3
    } else if s == "chr4"@ {
        Seqnames::Chr4
    } else if s == "chr5"@ {
        Seqnames::Chr5
    } else if s == "chr6"@ {
        Seqnames::Chr6
    } else if s == "chr7"@ {
        Seqnames::Chr7
    } else if s == "chr8"@ {
        Seqnames::Chr8
    } else if s == "chr9"@ {
        Seqnames::Chr9
    } else if s == "chr10"@ {
        Seqnames::Chr10
    } else if s == "chr11"@ {
        Seqnames::Chr11
    } else if s == "chr12"@ {
        Seqnames::Chr12
    } else if s == "chr13"@ {
        Seqnames::Chr13
    } else if s == "chr14"@ {
        Seqnames::Chr14
    } else if s == "chr15"@ {
        Seqnames::Chr15
    } else if s == "chr16"@ {
        Seqnames::Chr16
    } else if s == "chr17"@ {
        Seqnames::Chr17
    } else if s == "chr18"@ {
        Seqnames::Chr18
    } else if s == "chr19"@ {
        Seqnames::Chr19
    } else if s == "chr20"@ {
        Seqnames::Chr20
    } else if s == "chr21"@ {
        Seqnames::Chr21
    } else if s == "chr22"@ {
        Seqnames::Chr22
    } else if s == "chrX"@ {
        Seqnames::ChrX
    } else if s == "chrY"@ {
        Seqnames::ChrY
    } else {
        Seqnames::Unk
    }
}

/// The strand tag a raw string denotes. Total: unrecognized strings denote
/// `Unk`.
pub open spec fn strand_of(s: Seq<char>) -> Strand {
    if s == "+"@ {
        Strand::Forward
    } else if s == "-"@ {
        Strand::Reverse
    } else {
        Strand::Unk
    }
}

/// The chromosome column a string column denotes, element by element.
pub open spec fn chroms_of(ss: Seq<String>) -> Seq<Seqnames> {
    ss.map_values(|s: String| chrom_of(s@))
}

/// The strand column a string column denotes, element by element.
pub open spec fn strands_of(ss: Seq<String>) -> Seq<Strand> {
    ss.map_values(|s: String| strand_of(s@))
}

/// Exact, case-sensitive comparison of a string against a literal.
fn str_matches(a: &String, b: &str) -> (r: bool)
    ensures
        r == (a@ == b@),
{
    let owned: String = b.to_owned();
    *a == owned
}

/// One string's chromosome tag.
pub fn chrom_tag(s: &String) -> (t: Seqnames)
    ensures
        t == chrom_of(s@),
{
    if str_matches(s, "chr1") {
        Seqnames::Chr1
    } else if str_matches(s, "chr2") {
        Seqnames::Chr2
    } else if str_matches(s, "chr3") {
        Seqnames::Chr3
    } else if str_matches(s, "chr4") {
        Seqnames::Chr4
    } else if str_matches(s, "chr5") {
        Seqnames::Chr5
    } else if str_matches(s, "chr6") {
        Seqnames::Chr6
    } else if str_matches(s, "chr7") {
        Seqnames::Chr7
    } else if str_matches(s, "chr8") {
        Seqnames::Chr8
    } else if str_matches(s, "chr9") {
        Seqnames::Chr9
    } else if str_matches(s, "chr10") {
        Seqnames::Chr10
    } else if str_matches(s, "chr11") {
        Seqnames::Chr11
    } else if str_matches(s, "chr12") {
        Seqnames::Chr12
    } else if str_matches(s, "chr13") {
        Seqnames::Chr13
    } else if str_matches(s, "chr14") {
        Seqnames::Chr14
    } else if str_matches(s, "chr15") {
        Seqnames::Chr15
    } else if str_matches(s, "chr16") {
        Seqnames::Chr16
    } else if str_matches(s, "chr17") {
        Seqnames::Chr17
    } else if str_matches(s, "chr18") {
        Seqnames::Chr18
    } else if str_matches(s, "chr19") {
        Seqnames::Chr19
    } else if str_matches(s, "chr20") {
        Seqnames::Chr20
    } else if str_matches(s, "chr21") {
        Seqnames::Chr21
    } else if str_matches(s, "chr22") {
        Seqnames::Chr22
    } else if str_matches(s, "chrX") {
        Seqnames::ChrX
    } else if str_matches(s, "chrY") {
        Seqnames::ChrY
    } else {
        Seqnames::Unk
    }
}

/// One string's strand tag.
pub fn strand_tag(s: &String) -> (t: Strand)
    ensures
        t == strand_of(s@),
{
    if str_matches(s, "+") {
        Strand::Forward
    } else if str_matches(s, "-") {
        Strand::Reverse
    } else {
        Strand::Unk
    }
}

impl Seqnames {
    /// Maps a whole string column onto chromosome tags, order-preserving and
    /// total: the result has the input's length and the fallback tag stands
    /// wherever no literal matched.
    pub fn str_to_enum(element: Vec<String>) -> (r: Vec<Seqnames>)
        ensures
            r@ == chroms_of(element@),
    {
        let mut out: Vec<Seqnames> = Vec::new();
        let mut idx: usize = 0;
        while idx < element.len()
            invariant
                0 <= idx <= element@.len(),
                out@.len() == idx,
                forall|i: int| 0 <= i < idx ==> out@[i] == chrom_of(#[trigger] element@[i]@),
            decreases element@.len() - idx,
        {
            let t = chrom_tag(&element[idx]);
            out.push(t);
            idx = idx + 1;
        }
        proof {
            assert(out@ =~= chroms_of(element@));
        }
        out
    }
}

impl Strand {
    /// Maps a whole string column onto strand tags, order-preserving and
    /// total.
    pub fn str_to_enum(element: Vec<String>) -> (r: Vec<Strand>)
        ensures
            r@ == strands_of(element@),
    {
        let mut out: Vec<Strand> = Vec::new();
        let mut idx: usize = 0;
        while idx < element.len()
            invariant
                0 <= idx <= element@.len(),
                out@.len() == idx,
                forall|i: int| 0 <= i < idx ==> out@[i] == strand_of(#[trigger] element@[i]@),
            decreases element@.len() - idx,
        {
            let t = strand_tag(&element[idx]);
            out.push(t);
            idx = idx + 1;
        }
        proof {
            assert(out@ =~= strands_of(element@));
        }
        out
    }
}

} // verus!
