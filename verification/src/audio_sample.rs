//! Audio clips: immutable interleaved sample buffers with a sample rate and a
//! channel count.
//!
//! Amplitudes are fixed-point values in `i64`. Every stored sample is bounded
//! by [`SAMPLE_LIMIT`], so that summing clips in the mixer stays within `i64`.

use vstd::prelude::*;

verus! {

/// Largest amplitude magnitude a clip sample may hold. Generous headroom over
/// any sensible fixed-point scale; it exists so that sums over a whole clip
/// store provably fit in `i64`.
pub const SAMPLE_LIMIT: i64 = 0x4000_0000_0000;

/// A sample the engine is willing to store in a clip.
pub open spec fn valid_sample(sample: i64) -> bool {
    -SAMPLE_LIMIT <= sample <= SAMPLE_LIMIT
}

/// A stored segment of decoded or recorded audio, playable by the mixer.
/// Immutable once stored: interleaved samples, a sample rate and the channel
/// count the samples are interleaved over.
pub struct AudioSample {
    pub samples: Vec<i64>,
    pub sample_rate: u32,
    pub channels: u32,
}

impl AudioSample {
    /// A clip is well formed when it has at least one channel and every
    /// sample is within the storable amplitude range.
    pub open spec fn wf(&self) -> bool {
        &&& self.channels >= 1
        &&& forall|i: int|
            0 <= i < self.samples@.len() ==> valid_sample(#[trigger] self.samples@[i])
    }

    pub fn new(samples: Vec<i64>, sample_rate: u32, channels: u32) -> (clip: AudioSample)
        requires
            channels >= 1,
            forall|i: int| 0 <= i < samples@.len() ==> valid_sample(#[trigger] samples@[i]),
        ensures
            clip.samples@ == samples@,
            clip.sample_rate == sample_rate,
            clip.channels == channels,
            clip.wf(),
    {
        AudioSample { samples, sample_rate, channels }
    }

    /// The number of samples a clip spans when it covers `bars` bars of
    /// `beats_per_measure` beats at `bpm`, interleaved over `channel_count`
    /// channels. This is also the recorder's clip frame limit.
    pub open spec fn measure_len(
        sample_rate: u32,
        bpm: u32,
        beats_per_measure: u32,
        bars: u32,
        channel_count: u32,
    ) -> int {
        sample_rate * 60 / (bpm as int) * beats_per_measure * bars * channel_count
    }

    /// A silent clip spanning the given number of bars.
    pub fn zero_buffer(
        sample_rate: u32,
        bpm: u32,
        beats_per_measure: u32,
        bars: u32,
        channel_count: u32,
    ) -> (clip: AudioSample)
        requires
            bpm >= 1,
            channel_count >= 1,
            sample_rate * 60 <= u32::MAX,
            sample_rate * 60 / (bpm as int) * beats_per_measure <= u32::MAX,
            sample_rate * 60 / (bpm as int) * beats_per_measure * bars <= u32::MAX,
            Self::measure_len(sample_rate, bpm, beats_per_measure, bars, channel_count)
                <= u32::MAX,
        ensures
            clip.samples@.len()
                == Self::measure_len(sample_rate, bpm, beats_per_measure, bars, channel_count),
            forall|i: int| 0 <= i < clip.samples@.len() ==> clip.samples@[i] == 0,
            clip.sample_rate == sample_rate,
            clip.channels == channel_count,
            clip.wf(),
    {
        let sample_time = sample_rate * 60 / bpm * beats_per_measure * bars * channel_count;
        let samples = vec![0i64; sample_time as usize];
        assert forall|i: int| 0 <= i < samples@.len() implies samples@[i] == 0i64 by {
            assert(cloned(0i64, samples@[i]));
        }
        AudioSample { samples, sample_rate, channels: channel_count }
    }

    /// The sample at `position`, or `None` past the end of the clip.
    pub fn get(&self, position: usize) -> (sample: Option<i64>)
        ensures
            position < self.samples@.len() ==> sample == Some(self.samples@[position as int]),
            position >= self.samples@.len() ==> sample is None,
    {
        if position < self.samples.len() {
            Some(self.samples[position])
        } else {
            None
        }
    }

    pub fn get_samples(&self) -> (samples: &Vec<i64>)
        ensures
            samples@ == self.samples@,
    {
        &self.samples
    }
}

} // verus!
