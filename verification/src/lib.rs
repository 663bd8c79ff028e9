//! A compact columnar model of genomic intervals: run-length-encoded
//! categorical columns (chromosome, strand) beside parallel start/end/width
//! arrays, with construction-time validation.

pub mod codec;
pub mod parse;
pub mod ranges;
pub mod rle;

pub use crate::codec::Seqnames;
pub use crate::codec::Strand;
pub use crate::ranges::GenomicRanges;
pub use crate::ranges::Range;
pub use crate::ranges::RangesError;

