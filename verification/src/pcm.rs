//! The output shape: PCM samples plus the parameters needed to interpret
//! them, and the decoding parameters that produce them.

use vstd::prelude::*;

verus! {

/// Decoding parameters: the output sample rate, and whether to downmix to mono.
#[derive(Debug, Clone, Copy)]
pub struct ExtractOptions {
    pub sample_rate: u32,
    pub to_mono: bool,
}

impl Default for ExtractOptions {
    /// 16 kHz mono, the shape most speech-recognition models expect.
    fn default() -> (opts: Self)
        ensures
            opts.sample_rate == 16_000,
            opts.to_mono,
    {
        ExtractOptions { sample_rate: 16_000, to_mono: true }
    }
}

/// The number of output channels the options ask for: 1 when downmixing to
/// mono, else 2.
pub open spec fn channels_spec(opts: ExtractOptions) -> u16 {
    if opts.to_mono { 1 } else { 2 }
}

impl ExtractOptions {
    /// The number of output channels these options ask for.
    pub fn channels(&self) -> (c: u16)
        ensures
            c == channels_spec(*self),
    {
        if self.to_mono { 1 } else { 2 }
    }
}

/// The number of frames (samples per channel) in `sample_count` interleaved
/// samples over `channels` channels; none where there are no channels.
pub open spec fn frames_spec(sample_count: nat, channels: nat) -> nat {
    if channels == 0 { 0 } else { sample_count / channels }
}

/// The number of whole frames in `sample_count` interleaved samples.
pub fn frames_in(sample_count: usize, channels: u16) -> (r: usize)
    ensures
        r == frames_spec(sample_count as nat, channels as nat),
{
    if channels == 0 { 0 } else { sample_count / (channels as usize) }
}

/// Decoded audio as it leaves the decoder: the sample rate, the channel
/// count, and each interleaved `f32` sample as its IEEE-754 bit pattern.
#[derive(Debug, Clone, PartialEq)]
pub struct RawPcm {
    pub sample_rate: u32,
    pub channels: u16,
    pub sample_bits: Vec<u32>,
}

impl RawPcm {
    /// Number of samples per channel (the frame count), not the raw sample
    /// count.
    pub fn frame_count(&self) -> (r: usize)
        ensures
            r == frames_spec(self.sample_bits@.len(), self.channels as nat),
    {
        frames_in(self.sample_bits.len(), self.channels)
    }
}

/// The little-endian 32-bit word of the four bytes at `4 * i`.
pub open spec fn le_word(bytes: Seq<u8>, i: int) -> int {
    bytes[4 * i] + 256 * bytes[4 * i + 1] + 65536 * bytes[4 * i + 2] + 16777216 * bytes[4 * i + 3]
}

/// Split a byte stream into little-endian 32-bit words, four bytes each; a
/// trailing group of fewer than four bytes is dropped.
pub fn le_words(bytes: &[u8]) -> (r: Vec<u32>)
    ensures
        r@.len() == bytes@.len() / 4,
        forall|i: int| 0 <= i < r@.len() ==> #[trigger] r@[i] as int == le_word(bytes@, i),
{
    let len = bytes.len();
    let n = len / 4;
    let mut r: Vec<u32> = Vec::new();
    let mut i: usize = 0;
    while i < n
        invariant
            len == bytes@.len(),
            n == len / 4,
            i <= n,
            r@.len() == i,
            forall|j: int| 0 <= j < i ==> #[trigger] r@[j] as int == le_word(bytes@, j),
        decreases n - i,
    {
        assert(4 * i + 3 < len) by (nonlinear_arith)
            requires
                i < n,
                n == len / 4,
        ;
        let b0 = bytes[4 * i] as u32;
        let b1 = bytes[4 * i + 1] as u32;
        let b2 = bytes[4 * i + 2] as u32;
        let b3 = bytes[4 * i + 3] as u32;
        let w = b0 + 256 * b1 + 65536 * b2 + 16777216 * b3;
        r.push(w);
        i = i + 1;
    }
    r
}

} // verus!
