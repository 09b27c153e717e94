//! The announcement window — may a finished result be spoken *now*?
//!
//! ```text
//! blocked = user_speaking || turn_pending || audio_responses.nonEmpty
//! ```
//!
//! The user has the floor; or the user finished but the model has not
//! answered yet; or a response's audio is queued at the client and has not
//! finished playing. `turn_pending` clears only for a response that belongs
//! to the active turn, is not an announcement, carries no audio (or has
//! finished playing it), and did not leave a live tool call behind.

use indexmap::{IndexMap, IndexSet};
use vstd::prelude::*;
use crate::chars::str_eq;
use crate::imap::{distinct_strings, queued_audio_entries, queued_audio_map_clear, queued_audio_map_insert, queued_audio_map_len, queued_audio_map_new, queued_audio_map_shift_remove, string_set_clear, string_set_entries, string_set_insert, string_set_len, string_set_new, string_set_shift_remove};
use crate::response::ResponseOrigin;
use crate::strmap::{distinct_keys, has_key, lemma_insert_entry, seq_insert_entry, seq_remove_entry, value_of};

verus! {

/// One queued audio response, as the window tracks it.
#[derive(Clone, Debug, PartialEq, Eq)]
pub struct QueuedAudio {
    /// The turn the response belongs to.
    pub turn_id: String,
    /// Where the response came from.
    pub origin: ResponseOrigin,
}

/// What a `response.done` looked like, for the window's purposes.
#[derive(Clone, Debug, Default, PartialEq)]
pub struct ResponseDone {
    /// The turn this response answered.
    pub turn_id: String,
    /// Where the response came from.
    pub origin: ResponseOrigin,
    /// Whether it emitted audio.
    pub has_audio: bool,
    /// Whether it authored a tool call.
    pub has_function_call: bool,
    /// Whether it was cancelled or superseded.
    pub suppressed: bool,
    /// Whether `response.done` reported a failure status.
    pub failed: bool,
}

/// The blocking state of one voice session.
pub struct AnnouncementWindow {
    user_speaking: bool,
    active_turn_id: String,
    turn_pending: bool,
    audio_responses: IndexMap<String, QueuedAudio>,
    playing_responses: IndexSet<String>,
}

/// The abstract state of a window.
pub struct WindowView {
    /// The user has the floor.
    pub user_speaking: bool,
    /// The turn the window is tracking.
    pub active_turn_id: Seq<char>,
    /// A user turn is still waiting for its answer.
    pub turn_pending: bool,
    /// Response id → the queued audio's turn and origin, in queue order.
    pub audio: Seq<(Seq<char>, QueuedAudio)>,
    /// The responses whose playback has started, in start order.
    pub playing: Seq<Seq<char>>,
}

/// The predicate: `user_speaking || turn_pending || audio.nonEmpty`.
pub open spec fn window_blocked(w: WindowView) -> bool {
    w.user_speaking || w.turn_pending || w.audio.len() > 0
}

/// Whether a finished response settles the active turn.
pub open spec fn settles_turn(w: WindowView, done: ResponseDone) -> bool {
    !(done.origin == ResponseOrigin::Announcement || done.turn_id@ != w.active_turn_id
        || done.has_audio || (done.has_function_call && !done.suppressed && !done.failed))
}

impl AnnouncementWindow {
    /// The abstract state.
    pub closed spec fn view(&self) -> WindowView {
        WindowView {
            user_speaking: self.user_speaking,
            active_turn_id: self.active_turn_id@,
            turn_pending: self.turn_pending,
            audio: queued_audio_entries(self.audio_responses),
            playing: string_set_entries(self.playing_responses),
        }
    }

    /// A window with nothing in flight.
    pub fn new() -> (r: Self)
        ensures
            r.wf(),
            !r@.user_speaking,
            r@.active_turn_id == Seq::<char>::empty(),
            !r@.turn_pending,
            r@.audio == Seq::<(Seq<char>, QueuedAudio)>::empty(),
            r@.playing == Seq::<Seq<char>>::empty(),
    {
        AnnouncementWindow {
            user_speaking: false,
            active_turn_id: String::new(),
            turn_pending: false,
            audio_responses: queued_audio_map_new(),
            playing_responses: string_set_new(),
        }
    }

    /// The user started a turn, spoken or typed.
    pub fn begin_turn(&mut self, turn_id: &str)
        ensures
            final(self)@.user_speaking,
            final(self)@.active_turn_id == turn_id@,
            final(self)@.turn_pending,
            final(self)@.audio == old(self)@.audio,
            final(self)@.playing == old(self)@.playing,
    {
        self.user_speaking = true;
        self.active_turn_id = turn_id.to_owned();
        self.turn_pending = true;
    }

    /// The user stopped speaking. The turn stays pending.
    pub fn end_speech(&mut self)
        ensures
            final(self)@ == (WindowView { user_speaking: false, ..old(self)@ }),
    {
        self.user_speaking = false;
    }

    /// A response finished generating. It settles the active turn only if it
    /// is not an announcement, belongs to that turn, carries no audio, and
    /// left no live tool call.
    pub fn response_done(&mut self, done: &ResponseDone)
        ensures
            final(self)@ == (WindowView {
                turn_pending: if settles_turn(old(self)@, *done) {
                    false
                } else {
                    old(self)@.turn_pending
                },
                ..old(self)@
            }),
    {
        let announcement = match done.origin {
            ResponseOrigin::Announcement => true,
            _ => false,
        };
        if announcement || !str_eq(done.turn_id.as_str(), self.active_turn_id.as_str())
            || done.has_audio || (done.has_function_call && !done.suppressed && !done.failed) {
            return;
        }
        self.turn_pending = false;
    }

    /// The window's maps never hold a key twice.
    pub open spec fn wf(&self) -> bool {
        distinct_keys(self@.audio) && distinct_strings(self@.playing)
    }

    /// Record that `response_id` has audio queued at the client. An empty id
    /// is ignored: nothing could ever retire it.
    pub fn queue_audio(&mut self, response_id: &str, turn_id: &str, origin: ResponseOrigin)
        requires
            old(self).wf(),
        ensures
            final(self).wf(),
            response_id@.len() == 0 ==> final(self)@ == old(self)@,
            response_id@.len() > 0 ==> {
                &&& final(self)@ == (WindowView {
                    audio: seq_insert_entry(old(self)@.audio, response_id@, value_of(final(self)@.audio, response_id@)),
                    ..old(self)@
                })
                &&& value_of(final(self)@.audio, response_id@).turn_id@ == turn_id@
                &&& value_of(final(self)@.audio, response_id@).origin == origin
            },
    {
        if response_id.is_empty() {
            return;
        }
        let value = QueuedAudio { turn_id: turn_id.to_owned(), origin };
        let ghost v = value;
        queued_audio_map_insert(&mut self.audio_responses, response_id.to_owned(), value);
        proof {
            lemma_insert_entry(old(self)@.audio, response_id@, v);
        }
    }

    /// The client reported `playback.started` for `response_id`.
    pub fn start_playback(&mut self, response_id: &str)
        requires
            old(self).wf(),
        ensures
            final(self).wf(),
            final(self)@ == (WindowView {
                playing: if response_id@.len() == 0 || old(self)@.playing.contains(response_id@) {
                    old(self)@.playing
                } else {
                    old(self)@.playing.push(response_id@)
                },
                ..old(self)@
            }),
    {
        if !response_id.is_empty() {
            string_set_insert(&mut self.playing_responses, response_id.to_owned());
        }
    }

    /// The client reported `playback.ended` or `playback.cancelled`. The
    /// queued entry is retired unconditionally; the turn is settled only by a
    /// non-announcement response of the active (non-empty) turn that left no
    /// live tool call.
    pub fn finish_playback(&mut self, response_id: &str, has_function_call: bool)
        requires
            old(self).wf(),
        ensures
            final(self).wf(),
            final(self)@ == (WindowView {
                audio: seq_remove_entry(old(self)@.audio, response_id@),
                playing: remove_string(old(self)@.playing, response_id@),
                turn_pending: if finish_settles(old(self)@, response_id@, has_function_call) {
                    false
                } else {
                    old(self)@.turn_pending
                },
                ..old(self)@
            }),
    {
        let context = queued_audio_map_shift_remove(&mut self.audio_responses, response_id);
        string_set_shift_remove(&mut self.playing_responses, response_id);
        if let Some(context) = context {
            let announcement = match context.origin {
                ResponseOrigin::Announcement => true,
                _ => false,
            };
            if !announcement && !context.turn_id.as_str().is_empty() && str_eq(
                context.turn_id.as_str(),
                self.active_turn_id.as_str(),
            ) && !has_function_call {
                self.turn_pending = false;
            }
        }
    }

    /// Barge-in: clears only `turn_pending`; queued audio is retired by the
    /// client's own receipts.
    pub fn interrupt(&mut self)
        ensures
            final(self)@ == (WindowView { turn_pending: false, ..old(self)@ }),
    {
        self.turn_pending = false;
    }

    /// Drop everything.
    pub fn reset(&mut self)
        ensures
            final(self).wf(),
            !final(self)@.user_speaking,
            final(self)@.active_turn_id == Seq::<char>::empty(),
            !final(self)@.turn_pending,
            final(self)@.audio == Seq::<(Seq<char>, QueuedAudio)>::empty(),
            final(self)@.playing == Seq::<Seq<char>>::empty(),
    {
        self.user_speaking = false;
        self.active_turn_id = String::new();
        self.turn_pending = false;
        queued_audio_map_clear(&mut self.audio_responses);
        string_set_clear(&mut self.playing_responses);
    }

    /// **The predicate.** `user_speaking || turn_pending || audio queued`.
    pub fn is_blocked(&self) -> (r: bool)
        ensures
            r == window_blocked(self@),
    {
        self.user_speaking || self.turn_pending || queued_audio_map_len(&self.audio_responses) > 0
    }

    /// Whether any response is actually playing right now.
    pub fn is_playing(&self) -> (r: bool)
        ensures
            r == (self@.playing.len() > 0),
    {
        string_set_len(&self.playing_responses) > 0
    }

    /// Whether the user has the floor.
    pub fn user_speaking(&self) -> (r: bool)
        ensures
            r == self@.user_speaking,
    {
        self.user_speaking
    }

    /// Whether a user turn is still waiting for its answer.
    pub fn turn_pending(&self) -> (r: bool)
        ensures
            r == self@.turn_pending,
    {
        self.turn_pending
    }

    /// The turn the window is tracking.
    pub fn active_turn_id(&self) -> (r: &str)
        ensures
            r@ == self@.active_turn_id,
    {
        self.active_turn_id.as_str()
    }

    /// How many responses have audio queued at the client.
    pub fn queued_audio_len(&self) -> (r: usize)
        ensures
            r == self@.audio.len(),
    {
        queued_audio_map_len(&self.audio_responses)
    }
}

impl Default for AnnouncementWindow {
    fn default() -> (r: Self)
        ensures
            r.wf(),
            !window_blocked(r@),
            r@.playing.len() == 0,
    {
        AnnouncementWindow::new()
    }
}

/// `s` without `v`, the order of the rest kept.
pub open spec fn remove_string(s: Seq<Seq<char>>, v: Seq<char>) -> Seq<Seq<char>> {
    if s.contains(v) {
        s.remove(s.index_of(v))
    } else {
        s
    }
}

/// Whether retiring `response_id`'s audio settles the active turn.
pub open spec fn finish_settles(w: WindowView, response_id: Seq<char>, has_function_call: bool) -> bool {
    has_key(w.audio, response_id) && {
        let q = value_of(w.audio, response_id);
        &&& q.origin != ResponseOrigin::Announcement
        &&& q.turn_id@.len() > 0
        &&& q.turn_id@ == w.active_turn_id
        &&& !has_function_call
    }
}

/// An announcement's own response never settles the user's turn, by either
/// route: its `response.done`, or the end of its playback.
pub proof fn lemma_announcement_never_settles_turn(w: WindowView, done: ResponseDone, response_id: Seq<char>, has_function_call: bool)
    ensures
        done.origin == ResponseOrigin::Announcement ==> !settles_turn(w, done),
        has_key(w.audio, response_id) && value_of(w.audio, response_id).origin == ResponseOrigin::Announcement
            ==> !finish_settles(w, response_id, has_function_call),
{
}

/// While any response's audio is queued, the window stays blocked, whatever
/// the user and the model do.
pub proof fn lemma_queued_audio_blocks(w: WindowView)
    requires
        w.audio.len() > 0,
    ensures
        window_blocked(w),
{
}

} // verus!
