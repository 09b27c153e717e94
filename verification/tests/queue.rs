use via_voice::announcement::format::Announcement;
use via_voice::announcement::manager::{AnnouncementManagerConfig, AnnouncementQueue, Effects, TimerKind};
use via_voice::frontend::ResponseOutcome;
use via_voice::response::ResponseOrigin;

fn queue() -> AnnouncementQueue {
    AnnouncementQueue::new(AnnouncementManagerConfig::new("Results:", "…"))
}

fn fire(queue: &mut AnnouncementQueue, effects: &Effects, kind: TimerKind, blocked: bool) -> Effects {
    let timer = effects.timers.iter().find(|timer| timer.kind == kind).expect("a timer of that kind");
    queue.timer_fired(kind, timer.epoch, blocked, true)
}

#[test]
fn a_queued_result_is_spoken_as_an_announcement_once_the_window_passes() {
    let mut q = queue();
    let queued = q.queue(Announcement::completed("work_1", "check the weather", "sunny"));
    assert!(q.has("work_1"));
    let spoken = fire(&mut q, &queued, TimerKind::Delivery, false);
    let request = spoken.speak.expect("a response is asked for");
    assert_eq!(request.origin, ResponseOrigin::Announcement);
    assert_eq!(request.work_ids, vec!["work_1".to_owned()]);
    assert!(request.text.contains("sunny"));
    assert!(spoken.delivered.is_empty(), "speaking is not delivery");
}

#[test]
fn nothing_is_spoken_while_injection_is_blocked() {
    let mut q = queue();
    let queued = q.queue(Announcement::completed("work_1", "o", "r"));
    let blocked = fire(&mut q, &queued, TimerKind::Delivery, true);
    assert!(blocked.speak.is_none());
    assert!(q.has("work_1"));
    let later = q.flush(false, true);
    assert!(later.speak.is_some() || !later.timers.is_empty());
}

#[test]
fn delivery_is_confirmed_only_by_a_playback_receipt() {
    let mut q = queue();
    let queued = q.queue(Announcement::completed("work_1", "o", "r"));
    let spoken = fire(&mut q, &queued, TimerKind::Delivery, false);
    let request = spoken.speak.expect("spoken");
    let done = q.delivered(request.generation, &request.work_ids, &ResponseOutcome { completed: true, ..ResponseOutcome::default() });
    assert!(done.delivered.is_empty(), "response.done alone delivers nothing");
    let confirmed = q.confirm("work_1");
    assert_eq!(confirmed.delivered, vec!["work_1".to_owned()]);
    assert!(!q.has("work_1"));
    assert!(q.confirm("work_1").delivered.is_empty(), "a second receipt delivers nothing");
}

#[test]
fn a_removed_result_is_never_delivered() {
    let mut q = queue();
    q.queue(Announcement::completed("work_1", "o", "r"));
    let removed = q.remove("work_1");
    assert!(removed.delivered.is_empty());
    assert!(!q.has("work_1"));
}

#[test]
fn a_stale_timer_does_nothing() {
    let mut q = queue();
    let queued = q.queue(Announcement::completed("work_1", "o", "r"));
    let timer = queued.timers.iter().find(|timer| timer.kind == TimerKind::Delivery).expect("armed");
    let stale = q.timer_fired(TimerKind::Delivery, timer.epoch.wrapping_add(7), false, true);
    assert!(stale.speak.is_none() && stale.timers.is_empty());
    assert!(q.has("work_1"));
}
