//! Recording arithmetic and choices: whisper's sample rate, clip padding,
//! durations, and which input device to open.

use crate::text::{chars_of, str_eq};
use vstd::prelude::*;

verus! {

/// The sample rate whisper.cpp expects (16 kHz mono).
pub const WHISPER_SAMPLE_RATE: u32 = 16_000;

/// whisper.cpp needs at least about a second of audio: shorter clips are
/// padded with silence up to one second of samples.
pub fn padded_sample_count(n_samples: usize) -> (n: usize)
    ensures
        n == if n_samples < 16_000 {
            16_000
        } else {
            n_samples
        },
{
    let min_len = WHISPER_SAMPLE_RATE as usize;
    if n_samples < min_len {
        min_len
    } else {
        n_samples
    }
}

/// Duration in milliseconds of `n_samples` captured at `rate` samples per
/// second (a rate of 0 counts as 1).
pub fn recording_duration_ms(n_samples: u64, rate: u32) -> (ms: u64)
    requires
        n_samples * 1000 <= u64::MAX,
    ensures
        ms == (n_samples * 1000) / (if rate == 0 {
            1
        } else {
            rate as int
        }),
{
    let r: u64 = if rate == 0 {
        1
    } else {
        rate as u64
    };
    (n_samples * 1000) / r
}

/// Which input device to open, given the wanted name (empty for the
/// default device) and the names of the listed devices (`None` where a
/// device could not tell its name): the first listed device with exactly
/// that name, or the default device (`None`) when none has it.
pub fn input_device_index(wanted: &str, names: &[Option<String>]) -> (res: Option<usize>)
    ensures
        wanted@.len() == 0 ==> res is None,
        wanted@.len() > 0 ==> match res {
            Some(i) => i < names@.len() && (names@[i as int] matches Some(n) && n@ == wanted@)
                && forall|k: int|
                0 <= k < i ==> !(#[trigger] names@[k] matches Some(n) && n@ == wanted@),
            None => forall|k: int|
                0 <= k < names@.len() ==> !(#[trigger] names@[k] matches Some(n) && n@ == wanted@),
        },
{
    let wv = chars_of(wanted);
    if wv.len() == 0 {
        return None;
    }
    let mut i: usize = 0;
    while i < names.len()
        invariant
            i <= names@.len(),
            wanted@.len() > 0,
            forall|k: int| 0 <= k < i ==> !(#[trigger] names@[k] matches Some(n) && n@ == wanted@),
        decreases names.len() - i,
    {
        match &names[i] {
            Some(n) => {
                if str_eq(n.as_str(), wanted) {
                    return Some(i);
                }
            },
            None => {},
        }
        i += 1;
    }
    None
}

} // verus!
