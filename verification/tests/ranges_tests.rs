use genomic_ranges::codec::{Seqnames, Strand};
use genomic_ranges::parse::parse_u64;
use genomic_ranges::ranges::{GenomicRanges, Range, RangesError};
use genomic_ranges::rle::rle;

fn strings(v: &[&str]) -> Vec<String> {
    let mut out: Vec<String> = Vec::new();
    for s in v {
        out.push(s.to_string());
    }
    out
}

#[test]
fn scenario_mixed_runs() {
    let g = GenomicRanges::new_with_ranges(
        strings(&["chr1", "chr2", "chr2", "chr3", "crX"]),
        vec![(0, 10), (1, 11), (2, 12), (3, 13), (4, 14)],
        strings(&["-", "-", "-", "+", "z"]),
    )
    .unwrap();
    assert_eq!(
        g.seqnames.element,
        vec![Seqnames::Chr1, Seqnames::Chr2, Seqnames::Chr3, Seqnames::Unk]
    );
    assert_eq!(g.seqnames.freq, vec![1, 2, 1, 1]);
    assert_eq!(g.strand.element, vec![Strand::Reverse, Strand::Forward, Strand::Unk]);
    assert_eq!(g.strand.freq, vec![3, 1, 1]);
    assert_eq!(g.start, vec![0, 1, 2, 3, 4]);
    assert_eq!(g.end, vec![10, 11, 12, 13, 14]);
    assert_eq!(g.width, vec![10, 10, 10, 10, 10]);
}

#[test]
fn scenario_end_before_start_aborts() {
    let r = GenomicRanges::new(
        strings(&["chr1", "chr2"]),
        strings(&["5", "1"]),
        strings(&["3", "2"]),
    );
    assert_eq!(r.unwrap_err(), RangesError::EndBeforeStart { row: 0 });

    let r = GenomicRanges::new(
        strings(&["chr1", "chr2", "chr3"]),
        strings(&["1", "5", "2"]),
        strings(&["2", "3", "9"]),
    );
    assert_eq!(r.unwrap_err(), RangesError::EndBeforeStart { row: 1 });

    let r = GenomicRanges::new_with_ranges(
        strings(&["chr1", "chr2"]),
        vec![(0, 4), (5, 3)],
        strings(&["+", "-"]),
    );
    assert_eq!(r.unwrap_err(), RangesError::EndBeforeStart { row: 1 });
}

#[test]
fn scenario_single_interval() {
    let g = GenomicRanges::new(strings(&["chr7"]), strings(&["100"]), strings(&["250"]))
        .unwrap();
    assert_eq!(g.seqnames.element, vec![Seqnames::Chr7]);
    assert_eq!(g.seqnames.freq, vec![1]);
    assert_eq!(g.strand.element, vec![Strand::Unk]);
    assert_eq!(g.strand.freq, vec![1]);
    assert_eq!(g.width, vec![150]);
}

#[test]
fn categorical_totality() {
    let tags = Seqnames::str_to_enum(strings(&["chr1", "bogus", "+", "??"]));
    assert_eq!(
        tags,
        vec![Seqnames::Chr1, Seqnames::Unk, Seqnames::Unk, Seqnames::Unk]
    );
    let strands = Strand::str_to_enum(strings(&["+", "-", "*", ""]));
    assert_eq!(
        strands,
        vec![Strand::Forward, Strand::Reverse, Strand::Unk, Strand::Unk]
    );
}

#[test]
fn all_chromosome_literals_recognized() {
    let names = strings(&[
        "chr1", "chr2", "chr3", "chr4", "chr5", "chr6", "chr7", "chr8", "chr9", "chr10",
        "chr11", "chr12", "chr13", "chr14", "chr15", "chr16", "chr17", "chr18", "chr19",
        "chr20", "chr21", "chr22", "chrX", "chrY",
    ]);
    let expected = vec![
        Seqnames::Chr1,
        Seqnames::Chr2,
        Seqnames::Chr3,
        Seqnames::Chr4,
        Seqnames::Chr5,
        Seqnames::Chr6,
        Seqnames::Chr7,
        Seqnames::Chr8,
        Seqnames::Chr9,
        Seqnames::Chr10,
        Seqnames::Chr11,
        Seqnames::Chr12,
        Seqnames::Chr13,
        Seqnames::Chr14,
        Seqnames::Chr15,
        Seqnames::Chr16,
        Seqnames::Chr17,
        Seqnames::Chr18,
        Seqnames::Chr19,
        Seqnames::Chr20,
        Seqnames::Chr21,
        Seqnames::Chr22,
        Seqnames::ChrX,
        Seqnames::ChrY,
    ];
    assert_eq!(Seqnames::str_to_enum(names), expected);
    // Case sensitivity: only the exact literals are recognized.
    let off = Seqnames::str_to_enum(strings(&["Chr1", "CHRX", "chrx", "chr23", " chr1"]));
    assert_eq!(
        off,
        vec![Seqnames::Unk, Seqnames::Unk, Seqnames::Unk, Seqnames::Unk, Seqnames::Unk]
    );
}

#[test]
fn width_is_end_minus_start() {
    let g = GenomicRanges::new(
        strings(&["chr1", "chr1", "chr2"]),
        strings(&["2", "10", "7"]),
        strings(&["7", "20", "7"]),
    )
    .unwrap();
    assert_eq!(g.width, vec![5, 10, 0]);
}

#[test]
fn range_new_validates_rows() {
    let rg = Range::new(vec![0, 1, 2, 3], vec![10, 11, 12, 13]).unwrap();
    assert_eq!(rg.width, vec![10, 10, 10, 10]);

    let r = Range::new(vec![0, 12, 2], vec![10, 8, 12]);
    assert_eq!(r.unwrap_err(), RangesError::EndBeforeStart { row: 1 });
}

#[test]
fn parse_failures_name_field_and_row() {
    let r = GenomicRanges::new(
        strings(&["chr1", "chr2"]),
        strings(&["1", "abc"]),
        strings(&["2", "9"]),
    );
    assert_eq!(r.unwrap_err(), RangesError::ParseStart { row: 1 });

    let r = GenomicRanges::new(
        strings(&["chr1", "chr2"]),
        strings(&["1", "3"]),
        strings(&["2", "12x"]),
    );
    assert_eq!(r.unwrap_err(), RangesError::ParseEnd { row: 1 });

    let r = GenomicRanges::new(strings(&["chr1"]), strings(&[""]), strings(&["2"]));
    assert_eq!(r.unwrap_err(), RangesError::ParseStart { row: 0 });
}

#[test]
fn parse_accepts_exact_u64_range() {
    let g = GenomicRanges::new(
        strings(&["chr1", "chr1"]),
        strings(&["+5", "0"]),
        strings(&["18446744073709551615", "18446744073709551615"]),
    )
    .unwrap();
    assert_eq!(g.start, vec![5, 0]);
    assert_eq!(g.end, vec![18446744073709551615, 18446744073709551615]);
    assert_eq!(g.width, vec![18446744073709551610, 18446744073709551615]);

    // One past u64::MAX is a parse failure, not a wrapped value.
    let r = GenomicRanges::new(
        strings(&["chr1"]),
        strings(&["18446744073709551616"]),
        strings(&["18446744073709551617"]),
    );
    assert_eq!(r.unwrap_err(), RangesError::ParseStart { row: 0 });
}

#[test]
fn parse_u64_exact_values() {
    assert_eq!(parse_u64("0"), Some(0));
    assert_eq!(parse_u64("007"), Some(7));
    assert_eq!(parse_u64("+42"), Some(42));
    assert_eq!(parse_u64("18446744073709551615"), Some(u64::MAX));
    assert_eq!(parse_u64("18446744073709551616"), None);
    assert_eq!(parse_u64(""), None);
    assert_eq!(parse_u64("+"), None);
    assert_eq!(parse_u64("++1"), None);
    assert_eq!(parse_u64("-1"), None);
    assert_eq!(parse_u64("1 2"), None);
    assert_eq!(parse_u64("12a"), None);
}

#[test]
fn empty_input_is_rejected() {
    let r = GenomicRanges::new(strings(&[]), strings(&[]), strings(&[]));
    assert_eq!(r.unwrap_err(), RangesError::EmptyInput);
    let r = GenomicRanges::new_with_ranges(strings(&[]), vec![], strings(&[]));
    assert_eq!(r.unwrap_err(), RangesError::EmptyInput);
}

#[test]
fn rle_round_trip() {
    let input = vec![
        Seqnames::Chr1,
        Seqnames::Chr1,
        Seqnames::Chr2,
        Seqnames::Chr2,
        Seqnames::Chr2,
        Seqnames::Chr1,
    ];
    let mut enc: rle<Seqnames> = rle::<Seqnames>::new();
    enc.encode_rle(input.clone());
    assert_eq!(enc.element, vec![Seqnames::Chr1, Seqnames::Chr2, Seqnames::Chr1]);
    assert_eq!(enc.freq, vec![2, 3, 1]);
    assert_eq!(enc.decode(), input);

    let strands = vec![Strand::Reverse, Strand::Reverse, Strand::Forward];
    let mut enc: rle<Strand> = rle::<Strand>::new();
    enc.encode_rle(strands.clone());
    assert_eq!(enc.element, vec![Strand::Reverse, Strand::Forward]);
    assert_eq!(enc.freq, vec![2, 1]);
    assert_eq!(enc.decode(), strands);
}

#[test]
fn run_counts_sum_to_record_count() {
    let g = GenomicRanges::new(
        strings(&["chr1", "chr1", "chr2", "chr2", "chrX", "other"]),
        strings(&["0", "1", "2", "3", "4", "5"]),
        strings(&["10", "11", "12", "13", "14", "15"]),
    )
    .unwrap();
    let total: u64 = g.seqnames.freq.iter().map(|f| *f as u64).sum();
    assert_eq!(total, 6);
    let total: u64 = g.strand.freq.iter().map(|f| *f as u64).sum();
    assert_eq!(total, 6);
}

#[test]
fn columns_align_after_decoding() {
    let g = GenomicRanges::new_with_ranges(
        strings(&["chr2", "chr2", "chr9"]),
        vec![(1, 4), (2, 8), (3, 3)],
        strings(&["+", "+", "-"]),
    )
    .unwrap();
    let chroms = g.seqnames.decode();
    let strands = g.strand.decode();
    assert_eq!(chroms.len(), g.start.len());
    assert_eq!(strands.len(), g.start.len());
    assert_eq!(g.end.len(), g.start.len());
    assert_eq!(g.width.len(), g.start.len());
    assert_eq!(chroms, vec![Seqnames::Chr2, Seqnames::Chr2, Seqnames::Chr9]);
    assert_eq!(strands, vec![Strand::Forward, Strand::Forward, Strand::Reverse]);
}

#[test]
fn default_strand_is_unknown() {
    let g = GenomicRanges::new(
        strings(&["chr1", "chr2", "chr3"]),
        strings(&["0", "0", "0"]),
        strings(&["1", "1", "1"]),
    )
    .unwrap();
    assert_eq!(g.strand.element, vec![Strand::Unk]);
    assert_eq!(g.strand.freq, vec![3]);
    assert_eq!(g.strand.decode(), vec![Strand::Unk, Strand::Unk, Strand::Unk]);
}
