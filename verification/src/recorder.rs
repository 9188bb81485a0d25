//! The recorder engine: drains the transport's recording consumer and
//! segments captured samples into clips by frame count, handing each
//! completed clip to the mixer's store.

use vstd::arithmetic::div_mod::{lemma_fundamental_div_mod, lemma_fundamental_div_mod_converse, lemma_mod_bound};
use vstd::prelude::*;

use crate::audio_sample::{valid_sample, AudioSample, SAMPLE_LIMIT};
use crate::mixer::{is_mix_of, MixerController, MAX_CLIP_COUNT};
use crate::player::{PlayerController, PlayerMessage};
use crate::transport::TransportConsumer;

verus! {

/// The control side of the recorder: the flag the control thread flips to
/// start and stop capturing.
pub struct RecorderController {
    pub is_recording: bool,
}

impl RecorderController {
    pub fn new() -> (controller: RecorderController)
        ensures
            !controller.is_recording,
    {
        RecorderController { is_recording: false }
    }

    pub fn start_recording(&mut self)
        ensures
            final(self).is_recording,
    {
        self.is_recording = true;
    }

    pub fn stop_recording(&mut self)
        ensures
            !final(self).is_recording,
    {
        self.is_recording = false;
    }
}

/// The recording side: the transport consumer it drains, the clip being
/// built, how many samples that clip holds, and the frame limit at which a
/// clip is rotated out.
pub struct Recorder {
    pub consumer: TransportConsumer,
    pub current_recording_clip: Option<Vec<i64>>,
    pub position: usize,
    pub buffer_size: usize,
}

/// The samples of the clip being built (empty when none has started).
pub open spec fn clip_model(recorder: Recorder) -> Seq<i64> {
    match recorder.current_recording_clip {
        Some(clip) => clip@,
        None => Seq::empty(),
    }
}

/// One captured sample's effect on the clip being built: the sample is
/// appended, and the moment the clip reaches the frame limit it is rotated
/// out, leaving no clip pending.
pub open spec fn step_clip(current: Seq<i64>, limit: int, sample: i64) -> Seq<i64> {
    if current.len() + 1 >= limit {
        Seq::empty()
    } else {
        current.push(sample)
    }
}

/// Whether absorbing one more sample completes the current clip and rotates
/// it out.
pub open spec fn step_emits(current: Seq<i64>, limit: int) -> bool {
    current.len() + 1 >= limit
}

/// The mixer took exactly one new clip, holding `samples` at the recorder's
/// fixed rate and channel count, and rebuilt the prepared mix.
pub open spec fn pushes_clip(
    pre: MixerController,
    post: MixerController,
    samples: Seq<i64>,
) -> bool {
    &&& post.audio_store@.len() == pre.audio_store@.len() + 1
    &&& post.audio_store@.drop_last() == pre.audio_store@
    &&& post.audio_store@.last().samples@ == samples
    &&& post.audio_store@.last().sample_rate == 44100
    &&& post.audio_store@.last().channels == 2
    &&& post.has_prepared_audio
    &&& is_mix_of(post.prepared_audio@, post.audio_store@)
    &&& post.mixer_state == pre.mixer_state
}

pub open spec fn mixer_unchanged(pre: MixerController, post: MixerController) -> bool {
    &&& post.audio_store@ == pre.audio_store@
    &&& post.prepared_audio@ == pre.prepared_audio@
    &&& post.has_prepared_audio == pre.has_prepared_audio
    &&& post.mixer_state == pre.mixer_state
}

/// The full effect of absorbing one captured sample while recording:
/// the clip steps as [`step_clip`] says, and on rotation the finished clip
/// (the pending samples plus this one) lands in the mixer store and a
/// clip-added notification is queued.
pub open spec fn absorbs_sample(
    pre_rec: Recorder,
    post_rec: Recorder,
    pre_mix: MixerController,
    post_mix: MixerController,
    pre_ctl: PlayerController,
    post_ctl: PlayerController,
    sample: i64,
    emitted: bool,
) -> bool {
    let limit = pre_rec.buffer_size as int;
    &&& post_rec.buffer_size == pre_rec.buffer_size
    &&& emitted == step_emits(clip_model(pre_rec), limit)
    &&& clip_model(post_rec) == step_clip(clip_model(pre_rec), limit, sample)
    &&& post_rec.position == clip_model(post_rec).len()
    &&& if emitted {
        &&& pushes_clip(pre_mix, post_mix, clip_model(pre_rec).push(sample))
        &&& post_ctl.messages@ == pre_ctl.messages@.push(PlayerMessage::IncrementTotalClips)
    } else {
        &&& mixer_unchanged(pre_mix, post_mix)
        &&& post_ctl.messages@ == pre_ctl.messages@
    }
}

/// The full effect of finalizing a partial clip when recording has stopped:
/// a non-empty clip lands in the mixer store (with a notification queued)
/// and the recorder is left empty either way.
pub open spec fn flushes_clip(
    pre_rec: Recorder,
    post_rec: Recorder,
    pre_mix: MixerController,
    post_mix: MixerController,
    pre_ctl: PlayerController,
    post_ctl: PlayerController,
    emitted: bool,
) -> bool {
    &&& post_rec.buffer_size == pre_rec.buffer_size
    &&& post_rec.current_recording_clip is None
    &&& post_rec.position == 0
    &&& emitted == (clip_model(pre_rec).len() > 0)
    &&& if emitted {
        &&& pushes_clip(pre_mix, post_mix, clip_model(pre_rec))
        &&& post_ctl.messages@ == pre_ctl.messages@.push(PlayerMessage::IncrementTotalClips)
    } else {
        &&& mixer_unchanged(pre_mix, post_mix)
        &&& post_ctl.messages@ == pre_ctl.messages@
    }
}

impl Recorder {
    /// A recorder is well formed when its frame limit is positive and the
    /// clip being built (if any) is non-empty, still short of the limit
    /// (a completed clip is rotated out at once, never left pending), made
    /// of storable samples, and as long as `position` says.
    pub open spec fn wf(&self) -> bool {
        &&& self.buffer_size >= 1
        &&& match self.current_recording_clip {
            None => self.position == 0,
            Some(clip) => {
                &&& self.position == clip@.len()
                &&& 1 <= clip@.len() < self.buffer_size
                &&& forall|i: int| 0 <= i < clip@.len() ==> valid_sample(#[trigger] clip@[i])
            },
        }
    }

    pub fn new(consumer: TransportConsumer, buffer_size: usize) -> (recorder: Recorder)
        requires
            buffer_size >= 1,
        ensures
            recorder.wf(),
            recorder.buffer_size == buffer_size,
            recorder.current_recording_clip is None,
            recorder.position == 0,
            recorder.consumer == consumer,
    {
        Recorder { consumer, current_recording_clip: None, position: 0, buffer_size }
    }

    /// Absorb one captured sample into the clip being built; the moment the
    /// clip thereby reaches the frame limit it is finalized and handed to
    /// the mixer, within the same call.
    pub fn process_sample(
        &mut self,
        sample: i64,
        mixer_controller: &mut MixerController,
        player_controller: &mut PlayerController,
    ) -> (clip_added: bool)
        requires
            old(self).wf(),
            valid_sample(sample),
            old(mixer_controller).wf(),
            old(mixer_controller).audio_store@.len() < MAX_CLIP_COUNT,
        ensures
            final(self).wf(),
            final(mixer_controller).wf(),
            final(self).consumer == old(self).consumer,
            absorbs_sample(
                *old(self),
                *final(self),
                *old(mixer_controller),
                *final(mixer_controller),
                *old(player_controller),
                *final(player_controller),
                sample,
                clip_added,
            ),
    {
        let ghost pre_store = mixer_controller.audio_store@;
        let mut clip_samples = match self.current_recording_clip.take() {
            Some(clip) => clip,
            None => Vec::new(),
        };
        clip_samples.push(sample);
        self.position = self.position + 1;
        if self.position >= self.buffer_size {
            mixer_controller.add_audio_sample(AudioSample::new(clip_samples, 44100, 2));
            self.position = 0;
            player_controller.on_clip_add();
            proof {
                assert(mixer_controller.audio_store@.drop_last() =~= pre_store);
            }
            true
        } else {
            self.current_recording_clip = Some(clip_samples);
            false
        }
    }

    /// Finalize and hand over the partial clip left when recording stops;
    /// a no-op when no clip was being built.
    pub fn flush_clip(
        &mut self,
        mixer_controller: &mut MixerController,
        player_controller: &mut PlayerController,
    ) -> (clip_added: bool)
        requires
            old(self).wf(),
            old(mixer_controller).wf(),
            old(mixer_controller).audio_store@.len() < MAX_CLIP_COUNT,
        ensures
            final(self).wf(),
            final(mixer_controller).wf(),
            final(self).consumer == old(self).consumer,
            flushes_clip(
                *old(self),
                *final(self),
                *old(mixer_controller),
                *final(mixer_controller),
                *old(player_controller),
                *final(player_controller),
                clip_added,
            ),
    {
        let ghost pre_store = mixer_controller.audio_store@;
        match self.current_recording_clip.take() {
            Some(clip_samples) => {
                mixer_controller.add_audio_sample(AudioSample::new(clip_samples, 44100, 2));
                self.position = 0;
                player_controller.on_clip_add();
                proof {
                    assert(mixer_controller.audio_store@.drop_last() =~= pre_store);
                }
                true
            },
            None => false,
        }
    }

    /// One pass of the recorder loop: drain at most one sample from the
    /// transport. No data is a no-op for this tick (no silence is injected);
    /// a sample is absorbed while recording, and otherwise only triggers the
    /// flush of a leftover partial clip. Samples beyond the storable
    /// amplitude range are clamped to it on the way in.
    pub fn tick(
        &mut self,
        recorder_controller: &RecorderController,
        mixer_controller: &mut MixerController,
        player_controller: &mut PlayerController,
    ) -> (clip_added: bool)
        requires
            old(self).wf(),
            old(mixer_controller).wf(),
            old(mixer_controller).audio_store@.len() < MAX_CLIP_COUNT,
        ensures
            final(self).wf(),
            final(mixer_controller).wf(),
            final(self).buffer_size == old(self).buffer_size,
            ({
                ||| {
                    &&& !clip_added
                    &&& clip_model(*final(self)) == clip_model(*old(self))
                    &&& final(self).position == old(self).position
                    &&& mixer_unchanged(*old(mixer_controller), *final(mixer_controller))
                    &&& final(player_controller).messages@ == old(player_controller).messages@
                    &&& final(self).consumer.underrun_count == if old(
                        self,
                    ).consumer.underrun_count < u64::MAX {
                        old(self).consumer.underrun_count + 1int
                    } else {
                        old(self).consumer.underrun_count as int
                    }
                }
                ||| {
                    &&& recorder_controller.is_recording
                    &&& final(self).consumer.underrun_count == old(self).consumer.underrun_count
                    &&& exists|sample: i64|
                        valid_sample(sample) && absorbs_sample(
                            *old(self),
                            *final(self),
                            *old(mixer_controller),
                            *final(mixer_controller),
                            *old(player_controller),
                            *final(player_controller),
                            sample,
                            clip_added,
                        )
                }
                ||| {
                    &&& !recorder_controller.is_recording
                    &&& final(self).consumer.underrun_count == old(self).consumer.underrun_count
                    &&& flushes_clip(
                        *old(self),
                        *final(self),
                        *old(mixer_controller),
                        *final(mixer_controller),
                        *old(player_controller),
                        *final(player_controller),
                        clip_added,
                    )
                }
            }),
    {
        match self.consumer.pop() {
            Some(raw_sample) => {
                if recorder_controller.is_recording {
                    let sample = clamp_sample(raw_sample);
                    self.process_sample(sample, mixer_controller, player_controller)
                } else {
                    self.flush_clip(mixer_controller, player_controller)
                }
            },
            None => false,
        }
    }
}

/// Bring a raw transport sample into the storable amplitude range.
fn clamp_sample(sample: i64) -> (clamped: i64)
    ensures
        valid_sample(clamped),
        valid_sample(sample) ==> clamped == sample,
{
    if sample > SAMPLE_LIMIT {
        SAMPLE_LIMIT
    } else if sample < -SAMPLE_LIMIT {
        -SAMPLE_LIMIT
    } else {
        sample
    }
}

/// A recorder draining the given transport consumer with the default frame
/// limit (one four-beat bar at 60 beats per minute, 44.1 kHz, two
/// channels), paired with its control handle.
pub fn recorder(consumer: TransportConsumer) -> (pair: (Recorder, RecorderController))
    ensures
        pair.0.wf(),
        pair.0.buffer_size == 352800,
        pair.0.current_recording_clip is None,
        pair.0.position == 0,
        !pair.1.is_recording,
{
    (Recorder::new(consumer, 352800), RecorderController::new())
}

/// The clip being built after a continuous recording has absorbed `samples`
/// one by one from a fresh recorder: the fold of [`step_clip`].
pub open spec fn pending_clip(samples: Seq<i64>, limit: int) -> Seq<i64>
    decreases samples.len(),
{
    if samples.len() == 0 {
        Seq::empty()
    } else {
        step_clip(pending_clip(samples.drop_last(), limit), limit, samples.last())
    }
}

/// The clips rotated out to the mixer, in order, while a continuous
/// recording absorbs `samples` from a fresh recorder — each handed over by
/// the very sample that completes it.
pub open spec fn emitted_clips(samples: Seq<i64>, limit: int) -> Seq<Seq<i64>>
    decreases samples.len(),
{
    if samples.len() == 0 {
        Seq::empty()
    } else {
        let previous = emitted_clips(samples.drop_last(), limit);
        let pending = pending_clip(samples.drop_last(), limit);
        if step_emits(pending, limit) {
            previous.push(pending.push(samples.last()))
        } else {
            previous
        }
    }
}

/// Every clip the recorder hands over when fed `samples` continuously and
/// then stopped (the stop flushing the remainder, if any).
pub open spec fn all_clips(samples: Seq<i64>, limit: int) -> Seq<Seq<i64>> {
    if pending_clip(samples, limit).len() > 0 {
        emitted_clips(samples, limit).push(pending_clip(samples, limit))
    } else {
        emitted_clips(samples, limit)
    }
}

/// A slice that stays clear of the last element reads the same from a
/// capture and from that capture without its last element.
proof fn lemma_prefix_subrange(samples: Seq<i64>, a: int, b: int)
    requires
        samples.len() >= 1,
        0 <= a <= b <= samples.len() - 1,
    ensures
        samples.drop_last().subrange(a, b) == samples.subrange(a, b),
{
    let init = samples.drop_last();
    assert forall|j: int| 0 <= j < b - a implies init.subrange(a, b)[j] == samples.subrange(
        a,
        b,
    )[j] by {
        assert(init.subrange(a, b)[j] == init[a + j]);
        assert(init[a + j] == samples[a + j]);
    }
    assert(init.subrange(a, b) =~= samples.subrange(a, b));
}

/// While a recording runs, the clips rotated out so far are exactly the
/// consecutive `limit`-sized slices of the capture, handed over the moment
/// each fills, and the clip being built is exactly the capture's tail after
/// them.
proof fn lemma_segmentation_invariant(samples: Seq<i64>, limit: int)
    requires
        limit >= 1,
    ensures
        ({
            let emitted = emitted_clips(samples, limit);
            let pending = pending_clip(samples, limit);
            let total = samples.len() as int;
            &&& emitted.len() == total / limit
            &&& pending.len() == total % limit
            &&& emitted.len() * limit + pending.len() == total
            &&& forall|i: int|
                0 <= i < emitted.len() ==> (#[trigger] emitted[i]) == samples.subrange(
                    i * limit,
                    (i + 1) * limit,
                )
            &&& pending == samples.subrange(emitted.len() * limit, total)
        }),
    decreases samples.len(),
{
    let emitted = emitted_clips(samples, limit);
    let pending = pending_clip(samples, limit);
    let total = samples.len() as int;
    let init = samples.drop_last();
    if samples.len() == 0 {
        assert(limit * 0 + 0 == 0) by (nonlinear_arith);
        lemma_fundamental_div_mod_converse(0, limit, 0, 0);
        assert(emitted.len() * limit == 0) by (nonlinear_arith)
            requires
                emitted.len() == 0,
        ;
        assert(pending =~= samples.subrange(0, 0));
    } else {
        lemma_segmentation_invariant(init, limit);
        let previous = emitted_clips(init, limit);
        let prior = pending_clip(init, limit);
        let count = previous.len() as int;
        assert(count == (total - 1) / limit);
        assert(prior.len() == (total - 1) % limit);
        lemma_mod_bound(total - 1, limit);
        if prior.len() + 1 >= limit {
            // This sample completes the clip: it rotates out at once.
            assert(prior.len() == limit - 1);
            assert(total == (count + 1) * limit + 0) by (nonlinear_arith)
                requires
                    count * limit + prior.len() == total - 1,
                    prior.len() == limit - 1,
            ;
            lemma_fundamental_div_mod_converse(total, limit, count + 1, 0);
            assert(emitted == previous.push(prior.push(samples.last())));
            assert(pending =~= Seq::<i64>::empty());
            assert(emitted.len() == total / limit);
            assert(pending.len() == total % limit);
            assert(count * limit + limit == (count + 1) * limit) by (nonlinear_arith);
            assert(emitted.len() * limit == total);
            assert forall|i: int| 0 <= i < emitted.len() implies (#[trigger] emitted[i])
                == samples.subrange(i * limit, (i + 1) * limit) by {
                assert(0 <= i * limit && i * limit <= (i + 1) * limit && (i + 1) * limit
                    <= total) by (nonlinear_arith)
                    requires
                        0 <= i < emitted.len(),
                        emitted.len() * limit <= total,
                        limit >= 1,
                ;
                if i < count {
                    assert(emitted[i] == previous[i]);
                    assert(previous[i] == init.subrange(i * limit, (i + 1) * limit));
                    assert((i + 1) * limit <= count * limit) by (nonlinear_arith)
                        requires
                            0 <= i < count,
                            limit >= 1,
                    ;
                    assert(count * limit <= total - 1);
                    lemma_prefix_subrange(samples, i * limit, (i + 1) * limit);
                } else {
                    assert(emitted[i] == prior.push(samples.last()));
                    assert(prior == init.subrange(count * limit, total - 1));
                    assert(prior.push(samples.last()) =~= samples.subrange(
                        count * limit,
                        (count + 1) * limit,
                    ));
                }
            }
            assert(pending =~= samples.subrange(emitted.len() * limit, total));
        } else {
            // The sample joins the pending clip, still short of the limit.
            assert(total == count * limit + (prior.len() + 1)) by (nonlinear_arith)
                requires
                    count * limit + prior.len() == total - 1,
            ;
            lemma_fundamental_div_mod_converse(total, limit, count, prior.len() as int + 1);
            assert(emitted == previous);
            assert(pending == prior.push(samples.last()));
            assert(emitted.len() == total / limit);
            assert(pending.len() == total % limit);
            assert(emitted.len() * limit + pending.len() == total);
            assert(emitted.len() * limit <= total - 1);
            assert forall|i: int| 0 <= i < emitted.len() implies (#[trigger] emitted[i])
                == samples.subrange(i * limit, (i + 1) * limit) by {
                assert(0 <= i * limit && i * limit <= (i + 1) * limit && (i + 1) * limit
                    <= total - 1) by (nonlinear_arith)
                    requires
                        0 <= i < emitted.len(),
                        emitted.len() * limit <= total - 1,
                        limit >= 1,
                ;
                assert(emitted[i] == previous[i]);
                assert(previous[i] == init.subrange(i * limit, (i + 1) * limit));
                lemma_prefix_subrange(samples, i * limit, (i + 1) * limit);
            }
            assert(prior == init.subrange(count * limit, total - 1));
            assert(pending =~= samples.subrange(emitted.len() * limit, total));
        }
    }
}

/// Fed `total` samples continuously and then stopped, the recorder hands
/// over exactly `total / limit` clips of `limit` samples each — consecutive
/// slices of the capture, rotated out the moment each fills, while
/// recording runs — plus one trailing clip holding the remaining
/// `total % limit` samples when that remainder is not zero, flushed at the
/// stop.
pub proof fn lemma_clip_segmentation(samples: Seq<i64>, limit: int)
    requires
        limit >= 1,
    ensures
        ({
            let clips = all_clips(samples, limit);
            let total = samples.len() as int;
            &&& emitted_clips(samples, limit).len() == total / limit
            &&& clips.len() == total / limit + if total % limit > 0 {
                1int
            } else {
                0int
            }
            &&& forall|i: int|
                0 <= i < total / limit ==> (#[trigger] clips[i]) == samples.subrange(
                    i * limit,
                    (i + 1) * limit,
                )
            &&& forall|i: int| 0 <= i < total / limit ==> (#[trigger] clips[i]).len() == limit
            &&& total % limit > 0 ==> clips.last() == samples.subrange(
                total / limit * limit,
                total,
            ) && clips.last().len() == total % limit
        }),
{
    let clips = all_clips(samples, limit);
    let total = samples.len() as int;
    let emitted = emitted_clips(samples, limit);
    let pending = pending_clip(samples, limit);
    lemma_segmentation_invariant(samples, limit);
    lemma_mod_bound(total, limit);
    assert forall|i: int| 0 <= i < total / limit implies (#[trigger] clips[i])
        == samples.subrange(i * limit, (i + 1) * limit) by {
        assert(clips[i] == emitted[i]);
    }
    assert forall|i: int| 0 <= i < total / limit implies (#[trigger] clips[i]).len()
        == limit by {
        assert(0 <= i * limit && i * limit <= (i + 1) * limit && (i + 1) * limit <= total) by (nonlinear_arith)
            requires
                0 <= i < total / limit,
                total / limit * limit + total % limit == total,
                total % limit >= 0,
                limit >= 1,
        ;
        assert(clips[i] == samples.subrange(i * limit, (i + 1) * limit));
        assert((i + 1) * limit - i * limit == limit) by (nonlinear_arith);
    }
}

} // verus!
