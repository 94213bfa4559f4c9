//! A minimal, format-independent block of audio samples at a known rate.

use vstd::prelude::*;

verus! {

/// A contiguous run of PCM samples at a known sample rate.
#[derive(Debug, Clone, PartialEq, Default)]
pub struct Clip<T> {
    /// The samples.
    pub data: Vec<T>,
    /// Samples per second.
    pub sample_rate: u32,
}

impl<T> Clip<T> {
    /// A clip of `data` at `sample_rate` Hz.
    pub fn new(data: Vec<T>, sample_rate: u32) -> (c: Clip<T>)
        ensures
            c.data@ == data@,
            c.sample_rate == sample_rate,
    {
        Clip { data, sample_rate }
    }

    /// The samples.
    pub fn data(&self) -> (d: &[T])
        ensures
            d@ == self.data@,
    {
        self.data.as_slice()
    }

    /// The sample rate in Hz.
    pub fn sample_rate(&self) -> (r: u32)
        ensures
            r == self.sample_rate,
    {
        self.sample_rate
    }
}

} // verus!
