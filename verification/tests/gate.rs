use via_voice::gate::{accepts_playback_receipt, GateFlags, InjectionGate, PlaybackQueue};
use via_voice::response::ResponseOrigin;

/// A playback cursor at 24 kHz.
#[derive(Default)]
struct Cursor {
    frames: u64,
}

impl PlaybackQueue for Cursor {
    fn enqueue(&mut self, frames: u64) {
        self.frames += frames;
    }
    fn advance(&mut self, frames: u64) {
        self.frames = self.frames.saturating_sub(frames);
    }
    fn pending_frames(&self) -> u64 {
        self.frames
    }
    fn is_draining(&self) -> bool {
        self.frames > 0
    }
    fn pending_ms(&self) -> u64 {
        self.frames * 1_000 / 24_000
    }
    fn clear(&mut self) {
        self.frames = 0;
    }
}

type Mutation = (&'static str, fn(&mut InjectionGate<Cursor>));

fn open_gate() -> InjectionGate<Cursor> {
    let mut gate = InjectionGate::new(Cursor::default());
    gate.set_output_enabled(true);
    gate
}

#[test]
fn an_idle_session_with_the_speaker_is_open() {
    assert!(!open_gate().is_blocked());
}

#[test]
fn each_outer_flag_blocks_on_its_own() {
    let mutations: [Mutation; 3] = [
        ("sleeping", |gate| gate.set_sleeping(true)),
        ("waking", |gate| gate.set_waking(true)),
        ("no speaker", |gate| gate.set_output_enabled(false)),
    ];
    for (why, mutate) in mutations {
        let mut gate = open_gate();
        mutate(&mut gate);
        assert!(gate.is_blocked(), "{why} did not block");
    }
}

#[test]
fn the_window_still_blocks_a_session_that_owns_the_speaker() {
    let mut gate = open_gate();
    gate.window_mut().begin_turn("voice-1");
    assert!(gate.is_blocked());
    gate.window_mut().end_speech();
    assert!(gate.is_blocked(), "the turn is still pending");
    gate.window_mut().interrupt();
    assert!(!gate.is_blocked());
}

#[test]
fn a_default_gate_is_blocked_because_it_owns_no_speaker() {
    assert!(InjectionGate::new(Cursor::default()).is_blocked());
}

#[test]
fn the_cursor_reports_draining_between_the_two_receipts() {
    let mut gate = open_gate();
    gate.window_mut().queue_audio("resp_1", "voice-1", ResponseOrigin::Announcement);
    assert!(!gate.is_draining(), "nothing has started playing");
    // 24 000 frames at 24 kHz is one second of audio.
    gate.playback_started("resp_1", 24_000);
    assert!(gate.is_draining());
    assert_eq!(gate.pending_playback_ms(), 1_000);
    gate.playback_finished("resp_1", false);
    assert!(!gate.is_draining());
    assert_eq!(gate.pending_playback_ms(), 0);
    assert!(!gate.is_blocked(), "the window retired the queued audio too");
}

#[test]
fn a_playback_start_with_no_frame_count_leaves_the_cursor_inert() {
    let mut gate = open_gate();
    gate.playback_started("resp_1", 0);
    assert!(!gate.is_draining());
    assert!(gate.window().is_playing(), "the window still knows");
}

#[test]
fn a_cancelled_playback_drains_the_audio_that_will_never_be_played() {
    let mut gate = open_gate();
    gate.window_mut().queue_audio("resp_1", "voice-1", ResponseOrigin::Model);
    gate.playback_started("resp_1", 48_000);
    assert_eq!(gate.pending_playback_ms(), 2_000);
    gate.playback_finished("resp_1", false);
    assert_eq!(gate.pending_playback_ms(), 0);
}

#[test]
fn two_overlapping_responses_drain_only_when_both_finish() {
    let mut gate = open_gate();
    for id in ["resp_1", "resp_2"] {
        gate.window_mut().queue_audio(id, "voice-1", ResponseOrigin::Model);
        gate.playback_started(id, 24_000);
    }
    assert_eq!(gate.pending_playback_ms(), 2_000);
    gate.playback_finished("resp_1", false);
    assert!(gate.is_draining(), "the second is still playing");
    gate.playback_finished("resp_2", false);
    assert!(!gate.is_draining());
}

#[test]
fn reset_clears_the_window_and_the_cursor() {
    let mut gate = open_gate();
    gate.window_mut().queue_audio("resp_1", "voice-1", ResponseOrigin::Model);
    gate.playback_started("resp_1", 24_000);
    gate.reset();
    assert!(!gate.is_draining());
    assert!(!gate.is_blocked());
    assert!(!gate.window().is_playing());
}

#[test]
fn a_playback_receipt_needs_all_three_conditions() {
    assert!(accepts_playback_receipt(true, true, true));
    assert!(!accepts_playback_receipt(false, true, true));
    assert!(!accepts_playback_receipt(true, false, true));
    assert!(
        !accepts_playback_receipt(true, true, false),
        "a receipt for an unknown response must never confirm a notification",
    );
}

#[test]
fn setting_the_flags_wholesale_agrees_with_the_setters() {
    let mut wholesale = InjectionGate::new(Cursor::default());
    wholesale.set_flags(GateFlags { sleeping: false, waking: false, output_enabled: true });
    let mut piecemeal = InjectionGate::new(Cursor::default());
    piecemeal.set_output_enabled(true);
    assert_eq!(wholesale.flags(), piecemeal.flags());
    assert_eq!(wholesale.is_blocked(), piecemeal.is_blocked());
}
