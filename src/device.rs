//! Choice of the capture configuration among those a device offers.
use vstd::prelude::*;

verus! {

/// Sample formats a capture device may deliver.
#[derive(Clone, Copy, Debug, PartialEq, Eq)]
pub enum SampleFormat {
    U8,
    I8,
    I16,
    I32,
    F32,
    Other,
}

/// Preference of a format: 32-bit float first, then 16-bit and 32-bit
/// integers, then the rest.
pub open spec fn format_rank(f: SampleFormat) -> u8 {
    match f {
        SampleFormat::F32 => 4,
        SampleFormat::I16 => 3,
        SampleFormat::I32 => 2,
        _ => 1,
    }
}

pub fn format_score(f: SampleFormat) -> (r: u8)
    ensures
        r == format_rank(f),
{
    match f {
        SampleFormat::F32 => 4,
        SampleFormat::I16 => 3,
        SampleFormat::I32 => 2,
        _ => 1,
    }
}

/// A range of sample rates offered in one format.
#[derive(Clone, Copy, Debug)]
pub struct ConfigRange {
    pub min_rate: u32,
    pub max_rate: u32,
    pub format: SampleFormat,
}

pub open spec fn supports(c: ConfigRange, rate: u32) -> bool {
    c.min_rate <= rate && rate <= c.max_rate
}

/// The first range that supports `rate` with the best format rank, or none
/// when no range supports `rate` (the caller then falls back to the device
/// default and resamples).
pub fn pick_config(ranges: &[ConfigRange], rate: u32) -> (r: Option<usize>)
    ensures
        r is None <==> forall|i: int| 0 <= i < ranges@.len() ==> !supports(#[trigger] ranges@[i], rate),
        r matches Some(b) ==> {
            &&& b < ranges@.len()
            &&& supports(ranges@[b as int], rate)
            &&& forall|i: int|
                0 <= i < ranges@.len() && supports(#[trigger] ranges@[i], rate) ==> format_rank(
                    ranges@[i].format,
                ) <= format_rank(ranges@[b as int].format)
            &&& forall|i: int|
                0 <= i < b && supports(#[trigger] ranges@[i], rate) ==> format_rank(
                    ranges@[i].format,
                ) < format_rank(ranges@[b as int].format)
        },
{
    let mut best: Option<usize> = None;
    let mut i: usize = 0;
    while i < ranges.len()
        invariant
            i <= ranges@.len(),
            best is None <==> forall|j: int| 0 <= j < i ==> !supports(#[trigger] ranges@[j], rate),
            best matches Some(b) ==> {
                &&& b < i
                &&& supports(ranges@[b as int], rate)
                &&& forall|j: int|
                    0 <= j < i && supports(#[trigger] ranges@[j], rate) ==> format_rank(
                        ranges@[j].format,
                    ) <= format_rank(ranges@[b as int].format)
                &&& forall|j: int|
                    0 <= j < b && supports(#[trigger] ranges@[j], rate) ==> format_rank(
                        ranges@[j].format,
                    ) < format_rank(ranges@[b as int].format)
            },
        decreases ranges@.len() - i,
    {
        let c = ranges[i];
        if c.min_rate <= rate && rate <= c.max_rate {
            match best {
                None => {
                    best = Some(i);
                },
                Some(b) => {
                    if format_score(c.format) > format_score(ranges[b].format) {
                        best = Some(i);
                    }
                },
            }
        }
        i = i + 1;
    }
    best
}

} // verus!
