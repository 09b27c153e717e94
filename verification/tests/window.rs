use via_voice::announcement::window::{AnnouncementWindow, ResponseDone};
use via_voice::response::ResponseOrigin;

fn model_done(turn_id: &str) -> ResponseDone {
    ResponseDone { turn_id: turn_id.to_owned(), origin: ResponseOrigin::Model, ..ResponseDone::default() }
}

#[test]
fn a_fresh_window_is_open() {
    assert!(!AnnouncementWindow::new().is_blocked());
}

#[test]
fn each_of_the_three_conditions_blocks_on_its_own() {
    let mut speaking = AnnouncementWindow::new();
    speaking.begin_turn("voice-1");
    assert!(speaking.user_speaking());
    assert!(speaking.is_blocked(), "user speaking blocks");

    let mut pending = AnnouncementWindow::new();
    pending.begin_turn("voice-1");
    pending.end_speech();
    assert!(!pending.user_speaking());
    assert!(pending.is_blocked(), "a pending turn blocks");

    let mut queued = AnnouncementWindow::new();
    queued.queue_audio("resp_1", "voice-1", ResponseOrigin::Model);
    assert!(queued.is_blocked(), "queued audio blocks");
}

#[test]
fn a_silent_answer_to_the_active_turn_opens_the_window() {
    let mut window = AnnouncementWindow::new();
    window.begin_turn("voice-1");
    window.end_speech();
    window.response_done(&model_done("voice-1"));
    assert!(!window.is_blocked());
}

#[test]
fn an_announcements_own_response_never_clears_the_turn() {
    let mut window = AnnouncementWindow::new();
    window.begin_turn("voice-1");
    window.end_speech();
    window.response_done(&ResponseDone { origin: ResponseOrigin::Announcement, ..model_done("voice-1") });
    assert!(window.is_blocked());
}

#[test]
fn a_response_for_another_turn_says_nothing_about_this_one() {
    let mut window = AnnouncementWindow::new();
    window.begin_turn("voice-2");
    window.end_speech();
    window.response_done(&model_done("voice-1"));
    assert!(window.is_blocked());
}

#[test]
fn a_response_with_audio_stays_pending_until_playback_ends() {
    let mut window = AnnouncementWindow::new();
    window.begin_turn("voice-1");
    window.end_speech();
    window.queue_audio("resp_1", "voice-1", ResponseOrigin::Model);
    window.response_done(&ResponseDone { has_audio: true, ..model_done("voice-1") });
    assert!(window.turn_pending(), "generation finishing is not playback finishing");
    window.start_playback("resp_1");
    assert!(window.is_playing());
    window.finish_playback("resp_1", false);
    assert!(!window.is_blocked());
    assert!(!window.is_playing());
}

#[test]
fn a_live_tool_call_keeps_the_turn_pending_but_a_dead_one_does_not() {
    let mut live = AnnouncementWindow::new();
    live.begin_turn("voice-1");
    live.end_speech();
    live.response_done(&ResponseDone { has_function_call: true, ..model_done("voice-1") });
    assert!(live.is_blocked(), "the answer is still coming");

    for release in [
        ResponseDone { has_function_call: true, suppressed: true, ..model_done("voice-1") },
        ResponseDone { has_function_call: true, failed: true, ..model_done("voice-1") },
    ] {
        let mut window = AnnouncementWindow::new();
        window.begin_turn("voice-1");
        window.end_speech();
        window.response_done(&release);
        assert!(!window.is_blocked(), "nothing more is coming: {release:?}");
    }
}

#[test]
fn finishing_playback_of_a_tool_call_response_keeps_the_turn_pending() {
    let mut window = AnnouncementWindow::new();
    window.begin_turn("voice-1");
    window.end_speech();
    window.queue_audio("resp_1", "voice-1", ResponseOrigin::Model);
    window.finish_playback("resp_1", true);
    assert!(window.turn_pending());
    assert_eq!(window.queued_audio_len(), 0, "the audio is still retired");
}

#[test]
fn finishing_an_announcements_playback_never_clears_the_users_turn() {
    let mut window = AnnouncementWindow::new();
    window.begin_turn("voice-1");
    window.end_speech();
    window.queue_audio("resp_1", "voice-1", ResponseOrigin::Announcement);
    window.finish_playback("resp_1", false);
    assert!(window.turn_pending());
}

#[test]
fn an_empty_response_id_is_never_queued() {
    let mut window = AnnouncementWindow::new();
    window.queue_audio("", "voice-1", ResponseOrigin::Model);
    assert!(!window.is_blocked(), "an unretirable entry would deadlock injection");
    window.start_playback("");
    assert!(!window.is_playing());
}

#[test]
fn finishing_an_unknown_response_is_a_no_op() {
    let mut window = AnnouncementWindow::new();
    window.begin_turn("voice-1");
    window.end_speech();
    window.finish_playback("never_seen", false);
    assert!(window.turn_pending(), "an unknown id proves nothing");
}

#[test]
fn interrupt_clears_the_turn_but_leaves_queued_audio_to_its_receipts() {
    let mut window = AnnouncementWindow::new();
    window.begin_turn("voice-1");
    window.end_speech();
    window.queue_audio("resp_1", "voice-1", ResponseOrigin::Model);
    window.interrupt();
    assert!(!window.turn_pending());
    assert!(window.is_blocked(), "the client has not confirmed the drop yet");
    window.finish_playback("resp_1", false);
    assert!(!window.is_blocked());
}

#[test]
fn reset_clears_every_field() {
    let mut window = AnnouncementWindow::new();
    window.begin_turn("voice-1");
    window.queue_audio("resp_1", "voice-1", ResponseOrigin::Model);
    window.start_playback("resp_1");
    window.reset();
    assert!(!window.is_blocked());
    assert!(!window.is_playing());
    assert!(window.active_turn_id().is_empty());
    assert!(!window.user_speaking());
}

#[test]
fn requeuing_the_same_response_id_replaces_rather_than_duplicates() {
    let mut window = AnnouncementWindow::new();
    window.queue_audio("resp_1", "voice-1", ResponseOrigin::Model);
    window.queue_audio("resp_1", "voice-2", ResponseOrigin::Announcement);
    assert_eq!(window.queued_audio_len(), 1);
    window.finish_playback("resp_1", false);
    assert_eq!(window.queued_audio_len(), 0);
}

#[test]
fn a_queued_response_with_no_turn_id_never_clears_the_turn() {
    let mut window = AnnouncementWindow::new();
    window.begin_turn("");
    window.end_speech();
    window.queue_audio("resp_1", "", ResponseOrigin::Model);
    window.finish_playback("resp_1", false);
    assert!(window.turn_pending());
}
