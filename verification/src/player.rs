//! The orchestrating player: an ordered command queue fed by control-surface
//! calls, and a dispatcher that drains it strictly first-in first-out,
//! applying each command to the mixer and recorder controllers.

use vstd::prelude::*;

use crate::mixer::{MixerController, MixerState};
use crate::recorder::RecorderController;

verus! {

/// A control-plane command. Commands are queued in order and never coalesced
/// or cancelled; `Exit` stops the dispatcher after everything queued ahead of
/// it has been applied.
#[derive(Clone, Copy, PartialEq, Eq, Structural, Debug)]
pub enum PlayerMessage {
    Play,
    Pause,
    Stop,
    IncrementTotalClips,
    DecrementTotalClips,
    Record,
    StopRecord,
    Exit,
}

/// The sending half of the command channel: every control-surface call
/// appends one command to the ordered queue.
pub struct PlayerController {
    pub messages: Vec<PlayerMessage>,
}

impl PlayerController {
    pub fn new() -> (controller: PlayerController)
        ensures
            controller.messages@.len() == 0,
    {
        PlayerController { messages: Vec::new() }
    }

    pub fn play(&mut self)
        ensures
            final(self).messages@ == old(self).messages@.push(PlayerMessage::Play),
    {
        self.messages.push(PlayerMessage::Play);
    }

    pub fn pause(&mut self)
        ensures
            final(self).messages@ == old(self).messages@.push(PlayerMessage::Pause),
    {
        self.messages.push(PlayerMessage::Pause);
    }

    pub fn stop(&mut self)
        ensures
            final(self).messages@ == old(self).messages@.push(PlayerMessage::Stop),
    {
        self.messages.push(PlayerMessage::Stop);
    }

    pub fn record(&mut self)
        ensures
            final(self).messages@ == old(self).messages@.push(PlayerMessage::Record),
    {
        self.messages.push(PlayerMessage::Record);
    }

    pub fn stop_record(&mut self)
        ensures
            final(self).messages@ == old(self).messages@.push(PlayerMessage::StopRecord),
    {
        self.messages.push(PlayerMessage::StopRecord);
    }

    pub fn exit(&mut self)
        ensures
            final(self).messages@ == old(self).messages@.push(PlayerMessage::Exit),
    {
        self.messages.push(PlayerMessage::Exit);
    }

    pub fn on_clip_add(&mut self)
        ensures
            final(self).messages@ == old(self).messages@.push(PlayerMessage::IncrementTotalClips),
    {
        self.messages.push(PlayerMessage::IncrementTotalClips);
    }

    pub fn on_clip_remove(&mut self)
        ensures
            final(self).messages@ == old(self).messages@.push(PlayerMessage::DecrementTotalClips),
    {
        self.messages.push(PlayerMessage::DecrementTotalClips);
    }

    /// Take the oldest queued command, or `None` when the queue is empty.
    /// Never blocks.
    pub fn try_recv(&mut self) -> (message: Option<PlayerMessage>)
        ensures
            old(self).messages@.len() == 0 ==> message is None && final(self).messages@ == old(
                self).messages@,
            old(self).messages@.len() > 0 ==> message == Some(old(self).messages@[0]) && final(
                self).messages@ == old(self).messages@.drop_first(),
    {
        if self.messages.len() > 0 {
            let message = self.messages.remove(0);
            proof {
                assert(old(self).messages@.remove(0) =~= old(self).messages@.drop_first());
            }
            Some(message)
        } else {
            None
        }
    }
}

/// The control-plane state a command acts on: the playback state, the
/// recording flag, and the clip count against its ceiling.
pub struct ControlState {
    pub mixer_state: MixerState,
    pub recording: bool,
    pub total_clips: int,
    pub maximum_clips: int,
}

/// The control-plane view of a player and the two engine controllers.
pub open spec fn control_state(
    player: Player,
    mixer_controller: MixerController,
    recorder_controller: RecorderController,
) -> ControlState {
    ControlState {
        mixer_state: mixer_controller.mixer_state,
        recording: recorder_controller.is_recording,
        total_clips: player.total_clips as int,
        maximum_clips: player.maximum_clips as int,
    }
}

/// The effect of one command on the control-plane state. Reaching the clip
/// ceiling turns a further `IncrementTotalClips` into a forced stop of the
/// recording. `Exit` itself changes nothing.
pub open spec fn apply_message(s: ControlState, message: PlayerMessage) -> ControlState {
    match message {
        PlayerMessage::Play => ControlState { mixer_state: MixerState::PlayingLooping, ..s },
        PlayerMessage::Pause => ControlState { mixer_state: MixerState::Paused, ..s },
        PlayerMessage::Stop => ControlState { mixer_state: MixerState::Stopped, ..s },
        PlayerMessage::Record => ControlState { recording: true, ..s },
        PlayerMessage::StopRecord => ControlState { recording: false, ..s },
        PlayerMessage::IncrementTotalClips => if s.total_clips >= s.maximum_clips {
            ControlState { recording: false, ..s }
        } else {
            ControlState { total_clips: s.total_clips + 1, ..s }
        },
        PlayerMessage::DecrementTotalClips => ControlState { total_clips: s.total_clips - 1, ..s },
        PlayerMessage::Exit => s,
    }
}

/// The state after draining a queue in order, stopping at the first `Exit`.
pub open spec fn apply_messages(s: ControlState, messages: Seq<PlayerMessage>) -> ControlState
    decreases messages.len(),
{
    if messages.len() == 0 {
        s
    } else if messages[0] is Exit {
        s
    } else {
        apply_messages(apply_message(s, messages[0]), messages.drop_first())
    }
}

/// What a drain leaves in the queue: everything after the first `Exit`
/// (nothing when there is none).
pub open spec fn remaining_messages(messages: Seq<PlayerMessage>) -> Seq<PlayerMessage>
    decreases messages.len(),
{
    if messages.len() == 0 {
        messages
    } else if messages[0] is Exit {
        messages.drop_first()
    } else {
        remaining_messages(messages.drop_first())
    }
}

/// Whether draining this queue stops on an `Exit` (rather than running
/// dry).
pub open spec fn stops_on_exit(messages: Seq<PlayerMessage>) -> bool
    decreases messages.len(),
{
    if messages.len() == 0 {
        false
    } else if messages[0] is Exit {
        true
    } else {
        stops_on_exit(messages.drop_first())
    }
}

/// The clip count never dips below zero while draining the queue: every
/// `DecrementTotalClips` finds at least one clip counted.
pub open spec fn counts_stay_nonneg(s: ControlState, messages: Seq<PlayerMessage>) -> bool
    decreases messages.len(),
{
    if messages.len() == 0 {
        true
    } else if messages[0] is Exit {
        true
    } else if messages[0] is DecrementTotalClips && s.total_clips < 1 {
        false
    } else {
        counts_stay_nonneg(apply_message(s, messages[0]), messages.drop_first())
    }
}

/// The dispatching side: owns the clip count and its ceiling, and applies
/// commands to the engine controllers.
pub struct Player {
    pub total_clips: usize,
    pub maximum_clips: usize,
}

impl Player {
    pub fn new() -> (player: Player)
        ensures
            player.total_clips == 0,
            player.maximum_clips == 8,
    {
        Player { total_clips: 0, maximum_clips: 8 }
    }

    pub fn play(&self, mixer_controller: &mut MixerController)
        ensures
            final(mixer_controller).mixer_state is PlayingLooping,
            final(mixer_controller).audio_store@ == old(mixer_controller).audio_store@,
            final(mixer_controller).prepared_audio@ == old(mixer_controller).prepared_audio@,
            final(mixer_controller).has_prepared_audio == old(mixer_controller).has_prepared_audio,
    {
        mixer_controller.set_mixer_state(MixerState::PlayingLooping);
    }

    pub fn pause(&self, mixer_controller: &mut MixerController)
        ensures
            final(mixer_controller).mixer_state is Paused,
            final(mixer_controller).audio_store@ == old(mixer_controller).audio_store@,
            final(mixer_controller).prepared_audio@ == old(mixer_controller).prepared_audio@,
            final(mixer_controller).has_prepared_audio == old(mixer_controller).has_prepared_audio,
    {
        mixer_controller.set_mixer_state(MixerState::Paused);
    }

    pub fn stop(&self, mixer_controller: &mut MixerController)
        ensures
            final(mixer_controller).mixer_state is Stopped,
            final(mixer_controller).audio_store@ == old(mixer_controller).audio_store@,
            final(mixer_controller).prepared_audio@ == old(mixer_controller).prepared_audio@,
            final(mixer_controller).has_prepared_audio == old(mixer_controller).has_prepared_audio,
    {
        mixer_controller.set_mixer_state(MixerState::Stopped);
    }

    pub fn record(&self, recorder_controller: &mut RecorderController)
        ensures
            final(recorder_controller).is_recording,
    {
        recorder_controller.start_recording();
    }

    pub fn stop_record(&self, recorder_controller: &mut RecorderController)
        ensures
            !final(recorder_controller).is_recording,
    {
        recorder_controller.stop_recording();
    }

    /// Count one more stored clip; at the ceiling, force the recording to
    /// stop instead — the explicit backpressure bounding memory and mixing
    /// cost.
    pub fn increment_total_clips(&mut self, recorder_controller: &mut RecorderController)
        ensures
            final(self).maximum_clips == old(self).maximum_clips,
            old(self).total_clips >= old(self).maximum_clips ==> final(self).total_clips == old(
                self).total_clips && !final(recorder_controller).is_recording,
            old(self).total_clips < old(self).maximum_clips ==> final(self).total_clips == old(
                self).total_clips + 1 && final(recorder_controller).is_recording == old(
                recorder_controller).is_recording,
    {
        if self.total_clips >= self.maximum_clips {
            self.stop_record(recorder_controller);
            return ;
        }
        self.total_clips = self.total_clips + 1;
    }

    pub fn decrement_total_clips(&mut self)
        requires
            old(self).total_clips >= 1,
        ensures
            final(self).total_clips == old(self).total_clips - 1,
            final(self).maximum_clips == old(self).maximum_clips,
    {
        self.total_clips = self.total_clips - 1;
    }

    /// Apply one command to the engines; the result says whether the
    /// dispatcher should keep going (`false` exactly on `Exit`).
    pub fn dispatch(
        &mut self,
        message: PlayerMessage,
        mixer_controller: &mut MixerController,
        recorder_controller: &mut RecorderController,
    ) -> (proceed: bool)
        requires
            message is DecrementTotalClips ==> old(self).total_clips >= 1,
        ensures
            proceed == !(message is Exit),
            control_state(*final(self), *final(mixer_controller), *final(recorder_controller))
                == apply_message(
                control_state(*old(self), *old(mixer_controller), *old(recorder_controller)),
                message,
            ),
            final(self).maximum_clips == old(self).maximum_clips,
            final(mixer_controller).audio_store@ == old(mixer_controller).audio_store@,
            final(mixer_controller).prepared_audio@ == old(mixer_controller).prepared_audio@,
            final(mixer_controller).has_prepared_audio == old(mixer_controller).has_prepared_audio,
    {
        match message {
            PlayerMessage::Play => {
                self.play(mixer_controller);
                true
            },
            PlayerMessage::Pause => {
                self.pause(mixer_controller);
                true
            },
            PlayerMessage::Stop => {
                self.stop(mixer_controller);
                true
            },
            PlayerMessage::Record => {
                self.record(recorder_controller);
                true
            },
            PlayerMessage::StopRecord => {
                self.stop_record(recorder_controller);
                true
            },
            PlayerMessage::IncrementTotalClips => {
                self.increment_total_clips(recorder_controller);
                true
            },
            PlayerMessage::DecrementTotalClips => {
                self.decrement_total_clips();
                true
            },
            PlayerMessage::Exit => false,
        }
    }
}

/// A fresh player and the sending half of its command channel.
pub fn player() -> (pair: (Player, PlayerController))
    ensures
        pair.0.total_clips == 0,
        pair.0.maximum_clips == 8,
        pair.1.messages@.len() == 0,
{
    (Player::new(), PlayerController::new())
}

/// Drain the command queue, applying every command strictly first-in
/// first-out until the queue is empty or an `Exit` is taken; commands queued
/// behind an `Exit` are left unapplied. The result says whether an `Exit`
/// stopped the drain — only then should a dispatcher retire; a dry queue
/// just means nothing is pending yet.
pub fn run_player(
    player: &mut Player,
    controller: &mut PlayerController,
    mixer_controller: &mut MixerController,
    recorder_controller: &mut RecorderController,
) -> (exited: bool)
    requires
        counts_stay_nonneg(
            control_state(*old(player), *old(mixer_controller), *old(recorder_controller)),
            old(controller).messages@,
        ),
    ensures
        exited == stops_on_exit(old(controller).messages@),
        control_state(*final(player), *final(mixer_controller), *final(recorder_controller))
            == apply_messages(
            control_state(*old(player), *old(mixer_controller), *old(recorder_controller)),
            old(controller).messages@,
        ),
        final(controller).messages@ == remaining_messages(old(controller).messages@),
        final(player).maximum_clips == old(player).maximum_clips,
        final(mixer_controller).audio_store@ == old(mixer_controller).audio_store@,
        final(mixer_controller).prepared_audio@ == old(mixer_controller).prepared_audio@,
        final(mixer_controller).has_prepared_audio == old(mixer_controller).has_prepared_audio,
{
    let ghost s0 = control_state(*old(player), *old(mixer_controller), *old(recorder_controller));
    let ghost all_messages = old(controller).messages@;
    let mut exited = false;
    loop
        invariant_except_break
            !exited,
            stops_on_exit(controller.messages@) == stops_on_exit(all_messages),
            apply_messages(
                control_state(*player, *mixer_controller, *recorder_controller),
                controller.messages@,
            ) == apply_messages(s0, all_messages),
            counts_stay_nonneg(
                control_state(*player, *mixer_controller, *recorder_controller),
                controller.messages@,
            ),
            remaining_messages(controller.messages@) == remaining_messages(all_messages),
            player.maximum_clips == old(player).maximum_clips,
            mixer_controller.audio_store@ == old(mixer_controller).audio_store@,
            mixer_controller.prepared_audio@ == old(mixer_controller).prepared_audio@,
            mixer_controller.has_prepared_audio == old(mixer_controller).has_prepared_audio,
        ensures
            exited == stops_on_exit(all_messages),
            control_state(*player, *mixer_controller, *recorder_controller) == apply_messages(
                s0,
                all_messages,
            ),
            controller.messages@ == remaining_messages(all_messages),
            player.maximum_clips == old(player).maximum_clips,
            mixer_controller.audio_store@ == old(mixer_controller).audio_store@,
            mixer_controller.prepared_audio@ == old(mixer_controller).prepared_audio@,
            mixer_controller.has_prepared_audio == old(mixer_controller).has_prepared_audio,
        decreases controller.messages@.len(),
    {
        let ghost queue_before = controller.messages@;
        let next_message = controller.try_recv();
        match next_message {
            Some(message) => {
                let proceed = player.dispatch(message, mixer_controller, recorder_controller);
                if !proceed {
                    proof {
                        assert(stops_on_exit(queue_before));
                    }
                    exited = true;
                    break ;
                }
            },
            None => {
                proof {
                    assert(!stops_on_exit(queue_before));
                }
                break ;
            },
        }
    }
    exited
}

/// Strict first-in first-out order: a command appended to the queue takes
/// effect after, and on the state produced by, everything queued before it.
pub proof fn lemma_fifo_order(
    s: ControlState,
    messages: Seq<PlayerMessage>,
    message: PlayerMessage,
)
    requires
        forall|i: int| 0 <= i < messages.len() ==> !((#[trigger] messages[i]) is Exit),
    ensures
        apply_messages(s, messages.push(message)) == apply_message(
            apply_messages(s, messages),
            message,
        ),
    decreases messages.len(),
{
    if messages.len() == 0 {
        let pushed = messages.push(message);
        assert(pushed[0] == message);
        assert(pushed.drop_first() =~= Seq::<PlayerMessage>::empty());
        assert(apply_messages(s, messages) == s);
        if !(message is Exit) {
            assert(apply_messages(apply_message(s, message), pushed.drop_first())
                == apply_message(s, message));
            assert(apply_messages(s, pushed) == apply_message(s, message));
        }
    } else {
        assert(messages.push(message)[0] == messages[0]);
        assert(messages.push(message).drop_first() =~= messages.drop_first().push(message));
        assert forall|i: int| 0 <= i < messages.drop_first().len() implies !((
        #[trigger] messages.drop_first()[i]) is Exit) by {
            assert(messages.drop_first()[i] == messages[i + 1]);
        }
        lemma_fifo_order(apply_message(s, messages[0]), messages.drop_first(), message);
        assert(apply_messages(s, messages.push(message)) == apply_messages(
            apply_message(s, messages[0]),
            messages.drop_first().push(message),
        ));
        assert(apply_messages(s, messages) == apply_messages(
            apply_message(s, messages[0]),
            messages.drop_first(),
        ));
    }
}

/// Sending `Play, Record, Pause, StopRecord, Stop` applies them in exactly
/// that order: the drain result is the five effects nested left to right,
/// leaving playback stopped and recording off, with the clip count untouched.
pub proof fn lemma_commands_in_order(s: ControlState)
    ensures
        ({
            let sequence = seq![
                PlayerMessage::Play,
                PlayerMessage::Record,
                PlayerMessage::Pause,
                PlayerMessage::StopRecord,
                PlayerMessage::Stop,
            ];
            apply_messages(s, sequence) == apply_message(
                apply_message(
                    apply_message(
                        apply_message(apply_message(s, PlayerMessage::Play), PlayerMessage::Record),
                        PlayerMessage::Pause,
                    ),
                    PlayerMessage::StopRecord,
                ),
                PlayerMessage::Stop,
            )
        }),
        apply_messages(
            s,
            seq![
                PlayerMessage::Play,
                PlayerMessage::Record,
                PlayerMessage::Pause,
                PlayerMessage::StopRecord,
                PlayerMessage::Stop,
            ],
        ) == (ControlState {
            mixer_state: MixerState::Stopped,
            recording: false,
            total_clips: s.total_clips,
            maximum_clips: s.maximum_clips,
        }),
{
    let m1 = seq![
        PlayerMessage::Play,
        PlayerMessage::Record,
        PlayerMessage::Pause,
        PlayerMessage::StopRecord,
        PlayerMessage::Stop,
    ];
    let m2 = seq![
        PlayerMessage::Record,
        PlayerMessage::Pause,
        PlayerMessage::StopRecord,
        PlayerMessage::Stop,
    ];
    let m3 = seq![PlayerMessage::Pause, PlayerMessage::StopRecord, PlayerMessage::Stop];
    let m4 = seq![PlayerMessage::StopRecord, PlayerMessage::Stop];
    let m5 = seq![PlayerMessage::Stop];
    assert(m1.drop_first() =~= m2);
    assert(m2.drop_first() =~= m3);
    assert(m3.drop_first() =~= m4);
    assert(m4.drop_first() =~= m5);
    let s1 = apply_message(s, PlayerMessage::Play);
    let s2 = apply_message(s1, PlayerMessage::Record);
    let s3 = apply_message(s2, PlayerMessage::Pause);
    let s4 = apply_message(s3, PlayerMessage::StopRecord);
    let s5 = apply_message(s4, PlayerMessage::Stop);
    assert(apply_messages(s, m1) == apply_messages(s1, m2));
    assert(apply_messages(s1, m2) == apply_messages(s2, m3));
    assert(apply_messages(s2, m3) == apply_messages(s3, m4));
    assert(apply_messages(s3, m4) == apply_messages(s4, m5));
    assert(m5.drop_first().len() == 0);
    assert(apply_messages(s4, m5) == apply_messages(s5, m5.drop_first()));
    assert(apply_messages(s5, m5.drop_first()) == s5);
}

} // verus!
