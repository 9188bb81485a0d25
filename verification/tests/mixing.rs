use looper::audio_sample::AudioSample;
use looper::mixer::{mixer, MixerController, MixerState};

fn mono_clip(samples: Vec<i64>) -> AudioSample {
    AudioSample::new(samples, 44100, 1)
}

#[test]
fn empty_store_prepares_empty_buffer() {
    let mut controller = MixerController::new();
    controller.sum_audio_store();
    assert!(controller.has_prepared_audio);
    assert_eq!(controller.get_prepared_audio().len(), 0);
}

#[test]
fn two_mono_clips_sum_with_zero_padding() {
    let (mut controller, _mixer) = mixer();
    controller.add_audio_sample(mono_clip(vec![1, 1, 1, 1, 1]));
    controller.add_audio_sample(mono_clip(vec![2, 2, 2]));
    assert_eq!(controller.get_prepared_audio(), vec![3, 3, 3, 1, 1]);
}

#[test]
fn one_shot_plays_the_summed_mix_then_silence() {
    let (mut controller, mut mixer) = mixer();
    controller.add_audio_sample(mono_clip(vec![1, 1, 1, 1, 1]));
    controller.add_audio_sample(mono_clip(vec![2, 2, 2]));
    controller.set_mixer_state(MixerState::PlayingOneShot);
    let mut played = Vec::new();
    for _ in 0..5 {
        played.push(mixer.next(&mut controller).unwrap());
    }
    assert_eq!(played, vec![3, 3, 3, 1, 1]);
    for _ in 0..10 {
        assert_eq!(mixer.next(&mut controller), None);
    }
}

#[test]
fn prepared_frame_count_follows_longest_clip() {
    let mut controller = MixerController::new();
    controller.add_audio_sample(AudioSample::new(vec![1, 2, 3, 4, 5, 6], 44100, 2));
    assert_eq!(controller.get_prepared_audio().len(), 6);
    controller.add_audio_sample(AudioSample::new(vec![10, 20], 44100, 2));
    assert_eq!(controller.get_prepared_audio(), vec![11, 22, 3, 4, 5, 6]);
    controller.remove_audio_sample(0);
    assert_eq!(controller.get_prepared_audio(), vec![10, 20]);
    controller.remove_audio_sample(0);
    assert_eq!(controller.get_prepared_audio().len(), 0);
}

#[test]
fn channel_mismatched_clip_is_skipped_by_the_sum() {
    let mut controller = MixerController::new();
    controller.add_audio_sample(mono_clip(vec![1, 1]));
    controller.add_audio_sample(AudioSample::new(vec![5, 5, 5, 5], 44100, 2));
    // The mix is mono (first clip); the stereo clip still stretches the
    // frame count but contributes nothing.
    assert_eq!(controller.get_prepared_audio(), vec![1, 1, 0, 0]);
}

#[test]
fn removal_shifts_later_clip_indices_down() {
    let mut controller = MixerController::new();
    controller.add_audio_sample(mono_clip(vec![1]));
    controller.add_audio_sample(mono_clip(vec![2]));
    controller.add_audio_sample(mono_clip(vec![4]));
    controller.remove_audio_sample(1);
    assert_eq!(controller.get_prepared_audio(), vec![5]);
    controller.remove_audio_sample(1);
    assert_eq!(controller.get_prepared_audio(), vec![1]);
}

#[test]
fn rebuild_is_published_once_and_consumed_once() {
    let (mut controller, mut mixer) = mixer();
    controller.add_audio_sample(mono_clip(vec![5, 6]));
    assert!(controller.has_prepared_audio);
    controller.set_mixer_state(MixerState::PlayingLooping);
    assert_eq!(mixer.next(&mut controller), Some(5));
    assert!(!controller.has_prepared_audio);
    assert_eq!(mixer.next(&mut controller), Some(6));
}

#[test]
fn clip_accessors_expose_the_samples() {
    let clip = AudioSample::new(vec![7, 8, 9], 22050, 1);
    assert_eq!(clip.get(0), Some(7));
    assert_eq!(clip.get(2), Some(9));
    assert_eq!(clip.get(3), None);
    assert_eq!(clip.get_samples(), &vec![7, 8, 9]);
}

#[test]
fn zero_buffer_spans_the_measure() {
    let clip = AudioSample::zero_buffer(1000, 60, 4, 2, 2);
    assert_eq!(clip.get_samples().len(), 16000);
    assert_eq!(clip.get(0), Some(0));
    let full = AudioSample::zero_buffer(44100, 120, 4, 4, 2);
    assert_eq!(full.get_samples().len(), 705600);
}
