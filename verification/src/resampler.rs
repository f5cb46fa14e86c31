use vstd::prelude::*;

verus! {

/// Settings of a sample-rate converter from `from_rate` to `to_rate` over
/// `channels` channels. The conversion of the samples themselves is done by
/// the caller.
#[derive(Debug)]
pub struct Resampler {
    from_rate: u32,
    to_rate: u32,
    channels: usize,
}

impl View for Resampler {
    /// (from_rate, to_rate, channels)
    type V = (u32, u32, usize);

    closed spec fn view(&self) -> (u32, u32, usize) {
        (self.from_rate, self.to_rate, self.channels)
    }
}

impl Resampler {
    pub fn new(from_rate: u32, to_rate: u32, channels: usize) -> (r: Resampler)
        ensures
            r@ == (from_rate, to_rate, channels),
    {
        Resampler { from_rate, to_rate, channels }
    }

    pub fn from_rate(&self) -> (r: u32)
        ensures
            r == self@.0,
    {
        self.from_rate
    }

    pub fn to_rate(&self) -> (r: u32)
        ensures
            r == self@.1,
    {
        self.to_rate
    }

    pub fn channels(&self) -> (r: usize)
        ensures
            r == self@.2,
    {
        self.channels
    }

    /// Whether an input of `input_len` samples comes out unchanged: when
    /// both rates are equal or the input is empty.
    pub fn passes_through(&self, input_len: usize) -> (r: bool)
        ensures
            r == (self@.0 == self@.1 || input_len == 0),
    {
        self.from_rate == self.to_rate || input_len == 0
    }
}

impl Default for Resampler {
    /// 44100 Hz to 44100 Hz over two channels.
    fn default() -> (r: Resampler)
        ensures
            r@ == (44100u32, 44100u32, 2usize),
    {
        Resampler::new(44100, 44100, 2)
    }
}

} // verus!
