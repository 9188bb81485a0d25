use looper::mixer::MixerController;
use looper::player::{PlayerController, PlayerMessage};
use looper::recorder::{recorder, Recorder, RecorderController};
use looper::transport::transport_pair;

// 0.1 in the application's 1 << 24 fixed-point scale.
const TENTH: i64 = 1_677_722;

struct Rig {
    recorder: Recorder,
    controller: RecorderController,
    mixer: MixerController,
    notifications: PlayerController,
    producer: looper::transport::TransportProducer,
}

fn rig(clip_frame_limit: usize) -> Rig {
    let (producer, consumer) = transport_pair(64);
    Rig {
        recorder: Recorder::new(consumer, clip_frame_limit),
        controller: RecorderController::new(),
        mixer: MixerController::new(),
        notifications: PlayerController::new(),
        producer,
    }
}

impl Rig {
    fn feed(&mut self, sample: i64) {
        assert!(self.producer.push(sample));
        self.recorder
            .tick(&self.controller, &mut self.mixer, &mut self.notifications);
    }

    fn clip_samples(&self) -> Vec<Vec<i64>> {
        self.mixer
            .audio_store
            .iter()
            .map(|clip| clip.get_samples().clone())
            .collect()
    }
}

#[test]
fn ten_samples_at_limit_four_leave_two_full_clips_and_a_tail() {
    let mut rig = rig(4);
    rig.controller.start_recording();
    for _ in 0..10 {
        rig.feed(TENTH);
    }
    assert_eq!(
        rig.clip_samples(),
        vec![vec![TENTH; 4], vec![TENTH; 4]],
        "while recording runs, only the full clips have rotated out"
    );
    rig.controller.stop_recording();
    // The next arriving sample (discarded itself) flushes the partial clip.
    rig.feed(TENTH);
    assert_eq!(
        rig.clip_samples(),
        vec![vec![TENTH; 4], vec![TENTH; 4], vec![TENTH; 2]]
    );
    assert_eq!(
        rig.notifications.messages,
        vec![
            PlayerMessage::IncrementTotalClips,
            PlayerMessage::IncrementTotalClips,
            PlayerMessage::IncrementTotalClips
        ]
    );
}

#[test]
fn an_exact_multiple_of_the_limit_leaves_only_full_clips() {
    let mut rig = rig(4);
    rig.controller.start_recording();
    for value in 1..=8 {
        rig.feed(value);
    }
    // Both clips rotated out while recording was still running; the stop
    // finds nothing left to flush.
    assert_eq!(rig.clip_samples(), vec![vec![1, 2, 3, 4], vec![5, 6, 7, 8]]);
    rig.controller.stop_recording();
    rig.feed(99);
    assert_eq!(rig.clip_samples(), vec![vec![1, 2, 3, 4], vec![5, 6, 7, 8]]);
}

#[test]
fn a_full_clip_rotates_out_the_moment_it_completes() {
    let mut rig = rig(3);
    rig.controller.start_recording();
    rig.feed(1);
    rig.feed(2);
    assert_eq!(rig.mixer.audio_store.len(), 0);
    rig.feed(3);
    assert_eq!(rig.clip_samples(), vec![vec![1, 2, 3]]);
    assert_eq!(rig.recorder.position, 0);
    assert_eq!(
        rig.notifications.messages,
        vec![PlayerMessage::IncrementTotalClips]
    );
}

#[test]
fn limit_one_emits_every_sample_as_its_own_clip() {
    let mut rig = rig(1);
    rig.controller.start_recording();
    rig.feed(4);
    rig.feed(5);
    assert_eq!(rig.clip_samples(), vec![vec![4], vec![5]]);
    assert_eq!(rig.recorder.position, 0);
}

#[test]
fn emitted_clips_carry_rate_and_channels() {
    let mut rig = rig(2);
    rig.controller.start_recording();
    for value in [10, 20, 30] {
        rig.feed(value);
    }
    assert_eq!(rig.mixer.audio_store.len(), 1);
    assert_eq!(rig.mixer.audio_store[0].sample_rate, 44100);
    assert_eq!(rig.mixer.audio_store[0].channels, 2);
    // The emitted clip joins the mix immediately.
    assert_eq!(rig.mixer.get_prepared_audio(), vec![10, 20]);
}

#[test]
fn no_data_is_a_no_op_for_the_tick() {
    let mut rig = rig(4);
    rig.controller.start_recording();
    rig.feed(5);
    let added = rig
        .recorder
        .tick(&rig.controller, &mut rig.mixer, &mut rig.notifications);
    assert!(!added);
    assert_eq!(rig.mixer.audio_store.len(), 0);
    assert_eq!(rig.recorder.position, 1);
    assert_eq!(rig.recorder.consumer.underrun_count, 1);
}

#[test]
fn samples_arriving_while_stopped_leave_no_clip() {
    let mut rig = rig(4);
    for _ in 0..5 {
        rig.feed(TENTH);
    }
    assert_eq!(rig.mixer.audio_store.len(), 0);
    assert_eq!(rig.recorder.position, 0);
    assert!(rig.notifications.messages.is_empty());
}

#[test]
fn restarting_keeps_segmenting_from_a_fresh_clip() {
    let mut rig = rig(3);
    rig.controller.start_recording();
    for value in [1, 2] {
        rig.feed(value);
    }
    rig.controller.stop_recording();
    rig.feed(0);
    rig.controller.start_recording();
    for value in [7, 8, 9, 10] {
        rig.feed(value);
    }
    rig.controller.stop_recording();
    rig.feed(0);
    assert_eq!(rig.clip_samples(), vec![vec![1, 2], vec![7, 8, 9], vec![10]]);
}

#[test]
fn out_of_range_samples_are_clamped_into_the_storable_range() {
    let limit = looper::audio_sample::SAMPLE_LIMIT;
    let mut rig = rig(2);
    rig.controller.start_recording();
    rig.feed(i64::MAX);
    rig.feed(i64::MIN);
    rig.feed(3);
    assert_eq!(rig.clip_samples(), vec![vec![limit, -limit]]);
}

#[test]
fn default_recorder_uses_the_tempo_derived_limit() {
    let (_producer, consumer) = transport_pair(8);
    let (recorder, controller) = recorder(consumer);
    assert_eq!(recorder.buffer_size, 352800);
    assert!(!controller.is_recording);
}
