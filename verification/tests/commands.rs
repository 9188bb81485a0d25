use looper::mixer::{MixerController, MixerState};
use looper::player::{player, run_player, Player, PlayerController, PlayerMessage};
use looper::recorder::RecorderController;

struct Plane {
    player: Player,
    controller: PlayerController,
    mixer: MixerController,
    recorder: RecorderController,
}

fn plane() -> Plane {
    let (player, controller) = player();
    Plane {
        player,
        controller,
        mixer: MixerController::new(),
        recorder: RecorderController::new(),
    }
}

impl Plane {
    fn drain(&mut self) -> bool {
        run_player(
            &mut self.player,
            &mut self.controller,
            &mut self.mixer,
            &mut self.recorder,
        )
    }
}

#[test]
fn the_five_commands_apply_in_order() {
    let mut plane = plane();
    plane.controller.play();
    plane.controller.record();
    plane.controller.pause();
    plane.controller.stop_record();
    plane.controller.stop();
    assert_eq!(
        plane.controller.messages,
        vec![
            PlayerMessage::Play,
            PlayerMessage::Record,
            PlayerMessage::Pause,
            PlayerMessage::StopRecord,
            PlayerMessage::Stop
        ]
    );
    let exited = plane.drain();
    assert!(!exited, "no Exit was queued, so the dispatcher merely ran dry");
    assert_eq!(plane.mixer.mixer_state, MixerState::Stopped);
    assert!(!plane.recorder.is_recording);
    assert!(plane.controller.messages.is_empty());
}

#[test]
fn a_prefix_of_the_sequence_leaves_its_intermediate_state() {
    let mut plane = plane();
    plane.controller.play();
    plane.controller.record();
    plane.drain();
    assert_eq!(plane.mixer.mixer_state, MixerState::PlayingLooping);
    assert!(plane.recorder.is_recording);
    plane.controller.pause();
    plane.controller.stop_record();
    plane.drain();
    assert_eq!(plane.mixer.mixer_state, MixerState::Paused);
    assert!(!plane.recorder.is_recording);
}

#[test]
fn exit_drains_what_was_queued_ahead_and_leaves_the_rest() {
    let mut plane = plane();
    plane.controller.play();
    plane.controller.exit();
    plane.controller.pause();
    let exited = plane.drain();
    assert!(exited);
    assert_eq!(plane.mixer.mixer_state, MixerState::PlayingLooping);
    assert_eq!(plane.controller.messages, vec![PlayerMessage::Pause]);
}

#[test]
fn clip_notifications_move_the_clip_count() {
    let mut plane = plane();
    plane.controller.on_clip_add();
    plane.controller.on_clip_add();
    plane.controller.on_clip_remove();
    plane.drain();
    assert_eq!(plane.player.total_clips, 1);
}

#[test]
fn the_clip_ceiling_forces_recording_to_stop() {
    let mut plane = plane();
    plane.controller.record();
    for _ in 0..8 {
        plane.controller.on_clip_add();
    }
    plane.drain();
    assert!(plane.recorder.is_recording);
    assert_eq!(plane.player.total_clips, 8);
    // The ninth clip hits the ceiling: the count stays put and the
    // recording is force-stopped.
    plane.controller.on_clip_add();
    plane.drain();
    assert_eq!(plane.player.total_clips, 8);
    assert!(!plane.recorder.is_recording);
}

#[test]
fn try_recv_pops_in_first_in_first_out_order() {
    let mut controller = PlayerController::new();
    assert_eq!(controller.try_recv(), None);
    controller.play();
    controller.stop();
    assert_eq!(controller.try_recv(), Some(PlayerMessage::Play));
    assert_eq!(controller.try_recv(), Some(PlayerMessage::Stop));
    assert_eq!(controller.try_recv(), None);
}

#[test]
fn a_fresh_player_starts_empty_with_a_ceiling_of_eight() {
    let (player, controller) = player();
    assert_eq!(player.total_clips, 0);
    assert_eq!(player.maximum_clips, 8);
    assert!(controller.messages.is_empty());
}
