use looper::audio_sample::AudioSample;
use looper::mixer::{mixer, render_sample, MixerState};

fn prepared(samples: Vec<i64>) -> (looper::mixer::MixerController, looper::mixer::Mixer) {
    let (mut controller, mixer) = mixer();
    controller.add_audio_sample(AudioSample::new(samples, 44100, 1));
    (controller, mixer)
}

#[test]
fn stopped_yields_silence_and_rewinds() {
    let (mut controller, mut mixer) = prepared(vec![7, 8, 9]);
    controller.set_mixer_state(MixerState::PlayingOneShot);
    assert_eq!(mixer.next(&mut controller), Some(7));
    assert_eq!(mixer.next(&mut controller), Some(8));
    controller.set_mixer_state(MixerState::Stopped);
    for _ in 0..4 {
        assert_eq!(mixer.next(&mut controller), None);
    }
    // Restarting picks the mix up from the top again.
    controller.set_mixer_state(MixerState::PlayingOneShot);
    assert_eq!(mixer.next(&mut controller), Some(7));
}

#[test]
fn pause_holds_position_and_resume_continues() {
    let (mut controller, mut mixer) = prepared(vec![7, 8, 9]);
    controller.set_mixer_state(MixerState::PlayingOneShot);
    assert_eq!(mixer.next(&mut controller), Some(7));
    assert_eq!(mixer.next(&mut controller), Some(8));
    controller.set_mixer_state(MixerState::Paused);
    for _ in 0..4 {
        assert_eq!(mixer.next(&mut controller), None);
    }
    controller.set_mixer_state(MixerState::PlayingOneShot);
    assert_eq!(mixer.next(&mut controller), Some(9));
    assert_eq!(mixer.next(&mut controller), None);
}

#[test]
fn looping_wraps_at_the_buffer_end() {
    let (mut controller, mut mixer) = prepared(vec![1, 2]);
    controller.set_mixer_state(MixerState::PlayingLooping);
    let mut played = Vec::new();
    for _ in 0..7 {
        played.push(mixer.next(&mut controller).unwrap());
    }
    assert_eq!(played, vec![1, 2, 1, 2, 1, 2, 1]);
}

#[test]
fn one_shot_on_an_empty_mix_stays_silent() {
    let (mut controller, mut mixer) = mixer();
    controller.set_mixer_state(MixerState::PlayingOneShot);
    assert_eq!(mixer.next(&mut controller), None);
    controller.set_mixer_state(MixerState::PlayingLooping);
    assert_eq!(mixer.next(&mut controller), None);
}

#[test]
fn one_shot_does_not_change_state_by_itself() {
    let (mut controller, mut mixer) = prepared(vec![5]);
    controller.set_mixer_state(MixerState::PlayingOneShot);
    assert_eq!(mixer.next(&mut controller), Some(5));
    assert_eq!(mixer.next(&mut controller), None);
    assert_eq!(controller.mixer_state, MixerState::PlayingOneShot);
}

#[test]
fn state_codes_round_trip() {
    let states = [
        MixerState::PlayingOneShot,
        MixerState::PlayingLooping,
        MixerState::Paused,
        MixerState::Stopped,
    ];
    for state in states {
        assert_eq!(MixerState::from_code(state.to_code()), state);
    }
    assert_eq!(MixerState::to_code(MixerState::PlayingOneShot), 0);
    assert_eq!(MixerState::to_code(MixerState::Stopped), 3);
    assert_eq!(MixerState::from_code(200), MixerState::Stopped);
}

#[test]
fn renderer_sums_mixer_and_live_samples() {
    assert_eq!(render_sample(Some(5), Some(7)), 12);
    assert_eq!(render_sample(Some(-2), None), -2);
    assert_eq!(render_sample(None, Some(3)), 3);
    assert_eq!(render_sample(None, None), 0);
}
