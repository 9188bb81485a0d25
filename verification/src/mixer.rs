//! The mixer engine: a clip store summed into one prepared buffer, and a
//! pull-based playback source driven by a four-state machine.
//!
//! The controller side owns the clip store and rebuilds the prepared buffer
//! whenever the store changes; the playback side consumes the freshly
//! published buffer exactly once and then yields one sample per tick.

use vstd::arithmetic::div_mod::{lemma_fundamental_div_mod, lemma_mod_bound};
use vstd::prelude::*;

use crate::audio_sample::{valid_sample, AudioSample, SAMPLE_LIMIT};

verus! {

/// Most clips the store will ever hold; keeps every summed sample within
/// `i64` (`MAX_CLIP_COUNT * SAMPLE_LIMIT` is well below `i64::MAX`).
pub const MAX_CLIP_COUNT: usize = 65536;

/// What the playback state machine is doing.
#[derive(Clone, Copy, PartialEq, Eq, Structural, Debug)]
pub enum MixerState {
    PlayingOneShot,
    PlayingLooping,
    Paused,
    Stopped,
}

impl MixerState {
    /// The wire code of each state, used by callers that keep the state in an
    /// atomic byte.
    pub open spec fn to_code_spec(self) -> u8 {
        match self {
            MixerState::PlayingOneShot => 0,
            MixerState::PlayingLooping => 1,
            MixerState::Paused => 2,
            MixerState::Stopped => 3,
        }
    }

    pub fn to_code(self) -> (code: u8)
        ensures
            code == self.to_code_spec(),
    {
        match self {
            MixerState::PlayingOneShot => 0,
            MixerState::PlayingLooping => 1,
            MixerState::Paused => 2,
            MixerState::Stopped => 3,
        }
    }

    pub open spec fn from_code_spec(code: u8) -> MixerState {
        match code {
            0u8 => MixerState::PlayingOneShot,
            1u8 => MixerState::PlayingLooping,
            2u8 => MixerState::Paused,
            _ => MixerState::Stopped,
        }
    }

    /// Unknown codes decode to `Stopped`, the safe default.
    pub fn from_code(code: u8) -> (state: MixerState)
        ensures
            state == Self::from_code_spec(code),
            MixerState::from_code_spec(state.to_code_spec()) == state,
    {
        match code {
            0 => MixerState::PlayingOneShot,
            1 => MixerState::PlayingLooping,
            2 => MixerState::Paused,
            _ => MixerState::Stopped,
        }
    }
}

/// Channel count the mix is built for: that of the first stored clip, or 1
/// when the store is empty.
pub open spec fn store_channel_count(store: Seq<AudioSample>) -> int {
    if store.len() == 0 {
        1
    } else {
        store[0].channels as int
    }
}

/// Frames a clip spans when read with the given interleave.
pub open spec fn clip_frames(clip: AudioSample, channels: int) -> int
    recommends
        channels >= 1,
{
    clip.samples@.len() as int / channels
}

/// The largest per-channel frame count over the store.
pub open spec fn store_max_frames(store: Seq<AudioSample>, channels: int) -> int
    decreases store.len(),
{
    if store.len() == 0 {
        0
    } else {
        let rest = store_max_frames(store.drop_last(), channels);
        let last = clip_frames(store.last(), channels);
        if last > rest {
            last
        } else {
            rest
        }
    }
}

/// A clip's contribution at one interleaved index: its sample there, or 0
/// when the index is past its end or its channel count does not match the
/// mix.
pub open spec fn clip_sample_at(clip: AudioSample, channels: int, idx: int) -> int {
    if clip.channels as int == channels && 0 <= idx < clip.samples@.len() {
        clip.samples@[idx] as int
    } else {
        0
    }
}

/// The sum over the whole store of each clip's contribution at one index.
pub open spec fn mixed_sample(store: Seq<AudioSample>, channels: int, idx: int) -> int
    decreases store.len(),
{
    if store.len() == 0 {
        0
    } else {
        mixed_sample(store.drop_last(), channels, idx)
            + clip_sample_at(store.last(), channels, idx)
    }
}

/// `prepared` is exactly the summed mix of `store`: one slot per frame and
/// channel, each holding the sum of every matching clip's sample there.
pub open spec fn is_mix_of(prepared: Seq<i64>, store: Seq<AudioSample>) -> bool {
    let channels = store_channel_count(store);
    &&& prepared.len() == store_max_frames(store, channels) * channels
    &&& forall|idx: int|
        0 <= idx < prepared.len() ==> #[trigger] prepared[idx] as int
            == mixed_sample(store, channels, idx)
}

/// The control side of the mixer: the clip store, the prepared buffer, the
/// flag that publishes a freshly built buffer, and the playback state.
pub struct MixerController {
    pub audio_store: Vec<AudioSample>,
    pub has_prepared_audio: bool,
    pub prepared_audio: Vec<i64>,
    pub mixer_state: MixerState,
}

impl MixerController {
    pub open spec fn wf(&self) -> bool {
        &&& self.audio_store@.len() <= MAX_CLIP_COUNT
        &&& forall|i: int|
            0 <= i < self.audio_store@.len() ==> (#[trigger] self.audio_store@[i]).wf()
    }

    pub fn new() -> (controller: MixerController)
        ensures
            controller.audio_store@.len() == 0,
            controller.prepared_audio@.len() == 0,
            !controller.has_prepared_audio,
            controller.mixer_state is Stopped,
            controller.wf(),
    {
        MixerController {
            audio_store: Vec::new(),
            has_prepared_audio: false,
            prepared_audio: Vec::new(),
            mixer_state: MixerState::Stopped,
        }
    }

    /// Store a clip and rebuild the prepared mix.
    pub fn add_audio_sample(&mut self, audio_sample: AudioSample)
        requires
            old(self).wf(),
            audio_sample.wf(),
            old(self).audio_store@.len() < MAX_CLIP_COUNT,
        ensures
            final(self).wf(),
            final(self).audio_store@ == old(self).audio_store@.push(audio_sample),
            final(self).mixer_state == old(self).mixer_state,
            final(self).has_prepared_audio,
            is_mix_of(final(self).prepared_audio@, final(self).audio_store@),
    {
        self.audio_store.push(audio_sample);
        self.sum_audio_store();
    }

    /// Drop the clip at `index` (later clips shift down one) and rebuild the
    /// prepared mix.
    pub fn remove_audio_sample(&mut self, index: usize)
        requires
            old(self).wf(),
            index < old(self).audio_store@.len(),
        ensures
            final(self).wf(),
            final(self).audio_store@ == old(self).audio_store@.remove(index as int),
            final(self).mixer_state == old(self).mixer_state,
            final(self).has_prepared_audio,
            is_mix_of(final(self).prepared_audio@, final(self).audio_store@),
    {
        self.audio_store.remove(index);
        self.sum_audio_store();
    }

    /// Rebuild the prepared buffer as the sum of the stored clips and publish
    /// it: one slot per frame of the longest clip and per channel, each
    /// holding the sum over every clip whose channel count matches the mix
    /// (out-of-range positions count as 0).
    #[verifier::loop_isolation(false)]
    pub fn sum_audio_store(&mut self)
        requires
            old(self).wf(),
        ensures
            final(self).wf(),
            final(self).audio_store@ == old(self).audio_store@,
            final(self).mixer_state == old(self).mixer_state,
            final(self).has_prepared_audio,
            is_mix_of(final(self).prepared_audio@, final(self).audio_store@),
    {
        let ghost store = self.audio_store@;
        let channels: usize = if self.audio_store.len() > 0 {
            self.audio_store[0].channels as usize
        } else {
            1
        };
        assert(channels as int == store_channel_count(store));
        assert(channels >= 1);

        let mut max_frames: usize = 0;
        let mut i: usize = 0;
        while i < self.audio_store.len()
            invariant
                i <= store.len(),
                max_frames as int == store_max_frames(store.take(i as int), channels as int),
                max_frames as int * channels as int <= usize::MAX as int,
            decreases store.len() - i,
        {
            let len = self.audio_store[i].samples.len();
            let frames = len / channels;
            proof {
                lemma_fundamental_div_mod(len as int, channels as int);
                lemma_mod_bound(len as int, channels as int);
                assert(frames as int * channels as int <= len as int) by (nonlinear_arith)
                    requires
                        len as int == channels as int * (len as int / channels as int) + (len
                            as int % channels as int),
                        frames as int == len as int / channels as int,
                        len as int % channels as int >= 0,
                ;
            }
            if frames > max_frames {
                max_frames = frames;
            }
            proof {
                assert(store.take(i as int + 1).drop_last() =~= store.take(i as int));
                assert(store.take(i as int + 1).last() == store[i as int]);
            }
            i += 1;
        }
        proof {
            assert(store.take(store.len() as int) =~= store);
        }

        let total: usize = max_frames * channels;

        let mut prepared: Vec<i64> = Vec::new();
        let mut idx: usize = 0;
        while idx < total
            invariant
                idx <= total,
                prepared@.len() == idx,
                forall|j: int|
                    0 <= j < idx ==> #[trigger] prepared@[j] as int
                        == mixed_sample(store, channels as int, j),
            decreases total - idx,
        {
            let mut acc: i64 = 0;
            let mut k: usize = 0;
            while k < self.audio_store.len()
                invariant
                    k <= store.len(),
                    acc as int == mixed_sample(store.take(k as int), channels as int, idx as int),
                    -(k as int) * SAMPLE_LIMIT <= acc as int <= k as int * SAMPLE_LIMIT,
                decreases store.len() - k,
            {
                let clip = &self.audio_store[k];
                if clip.channels as usize == channels && idx < clip.samples.len() {
                    acc = acc + clip.samples[idx];
                }
                proof {
                    assert(store.take(k as int + 1).drop_last() =~= store.take(k as int));
                    assert(store.take(k as int + 1).last() == store[k as int]);
                }
                k += 1;
            }
            proof {
                assert(store.take(store.len() as int) =~= store);
            }
            prepared.push(acc);
            idx += 1;
        }

        self.prepared_audio = prepared;
        self.has_prepared_audio = true;
    }

    /// A copy of the currently prepared buffer (the playback side caches
    /// this copy; the controller keeps its own).
    pub fn get_prepared_audio(&self) -> (prepared: Vec<i64>)
        ensures
            prepared@ == self.prepared_audio@,
    {
        let prepared = self.prepared_audio.clone();
        proof {
            assert forall|i: int| 0 <= i < prepared@.len() implies prepared@[i]
                == self.prepared_audio@[i] by {
                assert(cloned(self.prepared_audio@[i], prepared@[i]));
            }
            assert(prepared@ =~= self.prepared_audio@);
        }
        prepared
    }

    /// Mark the published buffer as consumed.
    pub fn set_prepared_false(&mut self)
        ensures
            final(self).audio_store@ == old(self).audio_store@,
            final(self).prepared_audio@ == old(self).prepared_audio@,
            final(self).mixer_state == old(self).mixer_state,
            !final(self).has_prepared_audio,
    {
        self.has_prepared_audio = false;
    }

    pub fn set_mixer_state(&mut self, mixer_state: MixerState)
        ensures
            final(self).audio_store@ == old(self).audio_store@,
            final(self).prepared_audio@ == old(self).prepared_audio@,
            final(self).has_prepared_audio == old(self).has_prepared_audio,
            final(self).mixer_state == mixer_state,
    {
        self.mixer_state = mixer_state;
    }
}

/// The position after one playback tick: `Stopped` rewinds to 0, `Paused`
/// stays put, playing advances by one, and at the buffer's end a looping
/// player wraps (landing on 1, having replayed slot 0) while a one-shot
/// player stays where it is.
pub open spec fn tick_position(state: MixerState, buffer: Seq<i64>, position: int) -> int {
    match state {
        MixerState::Stopped => 0,
        MixerState::Paused => position,
        MixerState::PlayingOneShot => if 0 <= position < buffer.len() {
            position + 1
        } else {
            position
        },
        MixerState::PlayingLooping => if 0 <= position < buffer.len() {
            position + 1
        } else {
            1
        },
    }
}

/// The sample one playback tick yields: silence unless playing, the sample
/// under the cursor while in range, and on wrap-around the buffer's first
/// sample (or silence from an empty buffer).
pub open spec fn tick_output(state: MixerState, buffer: Seq<i64>, position: int) -> Option<i64> {
    match state {
        MixerState::Stopped => None,
        MixerState::Paused => None,
        MixerState::PlayingOneShot => if 0 <= position < buffer.len() {
            Some(buffer[position])
        } else {
            None
        },
        MixerState::PlayingLooping => if 0 <= position < buffer.len() {
            Some(buffer[position])
        } else if buffer.len() > 0 {
            Some(buffer[0])
        } else {
            None
        },
    }
}

/// The cursor after `n` playback ticks in one unchanging state and buffer.
pub open spec fn run_position(state: MixerState, buffer: Seq<i64>, position: int, n: nat) -> int
    decreases n,
{
    if n == 0 {
        position
    } else {
        tick_position(state, buffer, run_position(state, buffer, position, (n - 1) as nat))
    }
}

/// The sample yielded by tick number `n` (counting from 0) when ticking in
/// one unchanging state and buffer from `position`.
pub open spec fn run_output(state: MixerState, buffer: Seq<i64>, position: int, n: nat) -> Option<
    i64,
> {
    tick_output(state, buffer, run_position(state, buffer, position, n))
}

/// The buffer [`Mixer::next`] plays from: the freshly published prepared
/// buffer when the ready flag is set, else the playback side's cached one.
pub open spec fn playback_buffer(controller: MixerController, mixer: Mixer) -> Seq<i64> {
    if controller.has_prepared_audio {
        controller.prepared_audio@
    } else {
        mixer.audio_buffer@
    }
}

/// The playback side of the mixer: a cached copy of the prepared buffer and
/// the cursor into it.
pub struct Mixer {
    pub audio_buffer: Vec<i64>,
    pub position: usize,
}

impl Mixer {
    pub fn new() -> (mixer: Mixer)
        ensures
            mixer.audio_buffer@.len() == 0,
            mixer.position == 0,
    {
        Mixer { audio_buffer: Vec::new(), position: 0 }
    }

    /// One playback tick. Reads the controller's state; while playing it
    /// first consumes a freshly published buffer (clearing the ready flag so
    /// a rebuild is taken up exactly once), then yields the next sample and
    /// advances, as [`tick_position`] and [`tick_output`] describe. Never
    /// touches the playback state itself.
    ///
    /// The hand-off copies the published buffer into the playback side's
    /// cache; that copy's cost is outside what is verified here, and a
    /// deployment wanting a constant-time tick would swap a buffer pointer
    /// instead.
    pub fn next(&mut self, controller: &mut MixerController) -> (sample: Option<i64>)
        ensures
            final(controller).audio_store@ == old(controller).audio_store@,
            final(controller).prepared_audio@ == old(controller).prepared_audio@,
            final(controller).mixer_state == old(controller).mixer_state,
            ({
                let state = old(controller).mixer_state;
                match state {
                    MixerState::Stopped | MixerState::Paused => {
                        &&& final(controller).has_prepared_audio == old(
                            controller,
                        ).has_prepared_audio
                        &&& final(self).audio_buffer@ == old(self).audio_buffer@
                    },
                    _ => {
                        &&& !final(controller).has_prepared_audio
                        &&& final(self).audio_buffer@ == playback_buffer(
                            *old(controller),
                            *old(self),
                        )
                    },
                }
            }),
            final(self).position as int == tick_position(
                old(controller).mixer_state,
                playback_buffer(*old(controller), *old(self)),
                old(self).position as int,
            ),
            sample == tick_output(
                old(controller).mixer_state,
                playback_buffer(*old(controller), *old(self)),
                old(self).position as int,
            ),
    {
        let state = controller.mixer_state;

        if state == MixerState::Stopped {
            self.position = 0;
            return None;
        }
        if state == MixerState::Paused {
            return None;
        }

        if controller.has_prepared_audio {
            self.audio_buffer = controller.get_prepared_audio();
            controller.set_prepared_false();
        }

        if self.position >= self.audio_buffer.len() {
            if state == MixerState::PlayingLooping {
                self.position = 0;
            } else {
                return None;
            }
        }

        let sample = if self.position < self.audio_buffer.len() {
            Some(self.audio_buffer[self.position])
        } else {
            None
        };
        self.position = self.position + 1;
        sample
    }
}

/// A fresh controller/playback pair.
pub fn mixer() -> (pair: (MixerController, Mixer))
    ensures
        pair.0.audio_store@.len() == 0,
        pair.0.prepared_audio@.len() == 0,
        !pair.0.has_prepared_audio,
        pair.0.mixer_state is Stopped,
        pair.0.wf(),
        pair.1.audio_buffer@.len() == 0,
        pair.1.position == 0,
{
    (MixerController::new(), Mixer::new())
}

/// The prepared mix read per frame and channel: the slot for frame `frame`
/// and channel `channel` holds the sum, over every clip whose channel count
/// matches the mix, of that clip's sample at the same frame and channel
/// (positions past a clip's end sounding as 0).
pub proof fn lemma_prepared_frame_sample(controller: MixerController, frame: int, channel: int)
    requires
        is_mix_of(controller.prepared_audio@, controller.audio_store@),
        0 <= frame,
        0 <= channel < store_channel_count(controller.audio_store@),
        frame * store_channel_count(controller.audio_store@) + channel
            < controller.prepared_audio@.len(),
    ensures
        ({
            let channels = store_channel_count(controller.audio_store@);
            controller.prepared_audio@[frame * channels + channel] as int == mixed_sample(
                controller.audio_store@,
                channels,
                frame * channels + channel,
            )
        }),
{
    let channels = store_channel_count(controller.audio_store@);
    assert(frame * channels >= 0) by (nonlinear_arith)
        requires
            frame >= 0,
            channels >= 1,
    ;
}

/// What an optional sample sounds like: itself, or silence.
pub open spec fn sample_or_silence(sample: Option<i64>) -> int {
    match sample {
        Some(value) => value as int,
        None => 0,
    }
}

/// One output-renderer tick: the mixer's sample and the live monitor sample
/// summed, with "no data" from either side heard as silence. The bounds
/// admit any prepared-mix value (at most `MAX_CLIP_COUNT` clips of
/// `SAMPLE_LIMIT` magnitude) next to any single live sample.
pub fn render_sample(mixer_sample: Option<i64>, live_sample: Option<i64>) -> (out: i64)
    requires
        mixer_sample matches Some(value) ==> -0x4000_0000_0000_0000 <= value
            <= 0x4000_0000_0000_0000,
        live_sample matches Some(value) ==> valid_sample(value),
    ensures
        out == sample_or_silence(mixer_sample) + sample_or_silence(live_sample),
{
    let mixed = match mixer_sample {
        Some(value) => value,
        None => 0,
    };
    let live = match live_sample {
        Some(value) => value,
        None => 0,
    };
    mixed + live
}

/// While `Stopped`, the very first tick rewinds the cursor to 0 and every
/// tick yields silence.
pub proof fn lemma_stop_rewinds_and_silences(buffer: Seq<i64>, position: int, n: nat)
    ensures
        tick_position(MixerState::Stopped, buffer, position) == 0,
        run_output(MixerState::Stopped, buffer, position, n) is None,
{
}

/// While `Paused`, the cursor never moves and every tick yields silence; a
/// playing tick taken afterwards behaves exactly as it would have at the
/// moment of pausing.
pub proof fn lemma_pause_holds_position(
    buffer: Seq<i64>,
    position: int,
    n: nat,
    resumed: MixerState,
)
    ensures
        run_position(MixerState::Paused, buffer, position, n) == position,
        run_output(MixerState::Paused, buffer, position, n) is None,
        tick_output(resumed, buffer, run_position(MixerState::Paused, buffer, position, n))
            == tick_output(resumed, buffer, position),
    decreases n,
{
    if n > 0 {
        lemma_pause_holds_position(buffer, position, (n - 1) as nat, resumed);
    }
}

/// A looping player over a non-empty buffer never ends the stream: every
/// tick yields a sample.
pub proof fn lemma_looping_never_ends(buffer: Seq<i64>, position: int, n: nat)
    requires
        buffer.len() > 0,
        0 <= position,
    ensures
        0 <= run_position(MixerState::PlayingLooping, buffer, position, n),
        run_output(MixerState::PlayingLooping, buffer, position, n) is Some,
    decreases n,
{
    if n > 0 {
        lemma_looping_never_ends(buffer, position, (n - 1) as nat);
    }
}

/// On reaching the buffer's end, the next looping tick wraps: it replays the
/// first sample and leaves the cursor at 1.
pub proof fn lemma_looping_wraps(buffer: Seq<i64>, position: int)
    requires
        buffer.len() > 0,
        position >= buffer.len(),
    ensures
        tick_output(MixerState::PlayingLooping, buffer, position) == Some(buffer[0]),
        tick_position(MixerState::PlayingLooping, buffer, position) == 1,
{
}

/// A one-shot player started at the front yields each buffered sample
/// exactly once, in order, and silence on every tick after that, without the
/// cursor ever moving again.
pub proof fn lemma_one_shot_plays_through(buffer: Seq<i64>, n: nat)
    ensures
        run_position(MixerState::PlayingOneShot, buffer, 0, n) == if n <= buffer.len() {
            n as int
        } else {
            buffer.len() as int
        },
        n < buffer.len() ==> run_output(MixerState::PlayingOneShot, buffer, 0, n) == Some(
            buffer[n as int],
        ),
        n >= buffer.len() ==> run_output(MixerState::PlayingOneShot, buffer, 0, n) is None,
    decreases n,
{
    if n > 0 {
        lemma_one_shot_plays_through(buffer, (n - 1) as nat);
    }
}

} // verus!
