//! **The Injection Gate** — may a finished result be spoken *now*?
//!
//! ```text
//! blocked = sleeping || waking || !output_enabled || window.is_blocked()
//! ```
//!
//! The session's socket is closed, or mid-handshake, or this client does not
//! own the speaker, or someone is mid-sentence. The playback cursor that InjectionGate
//! also keeps — how much audio the client still has queued — is supplied by
//! the embedder through [`PlaybackQueue`].

use vstd::prelude::*;
use crate::announcement::window::{AnnouncementWindow, WindowView, window_blocked};

verus! {

/// The client's playback queue: audio frames enqueued on `playback.started`
/// and advanced past on `playback.ended`. Implemented over the audio layer's
/// playback cursor by the embedder.
pub trait PlaybackQueue {
    /// Queue `frames` frames of audio.
    fn enqueue(&mut self, frames: u64);
    /// Advance past `frames` frames.
    fn advance(&mut self, frames: u64);
    /// How many frames are still queued.
    fn pending_frames(&self) -> u64;
    /// Whether the client is still draining queued audio.
    fn is_draining(&self) -> bool;
    /// How much audio is still queued, in milliseconds.
    fn pending_ms(&self) -> u64;
    /// Drop everything queued.
    fn clear(&mut self);
}

/// The gateway flags that wrap the announcement window.
#[derive(Clone, Copy, Debug, Default, PartialEq, Eq)]
pub struct GateFlags {
    /// The realtime socket is closed and the session is wake-word-only.
    pub sleeping: bool,
    /// The socket is coming back.
    pub waking: bool,
    /// This client owns the speaker.
    pub output_enabled: bool,
}

/// The blocking predicate over its flags and its window.
pub open spec fn gate_blocked(flags: GateFlags, window: WindowView) -> bool {
    flags.sleeping || flags.waking || !flags.output_enabled || window_blocked(window)
}

/// The Injection Gate: the announcement window, the gateway flags and the
/// playback cursor, answered in one place.
pub struct InjectionGate<Q> {
    window: AnnouncementWindow,
    flags: GateFlags,
    cursor: Q,
}

impl<Q: PlaybackQueue> InjectionGate<Q> {
    /// The window is well formed.
    pub open spec fn wf(&self) -> bool {
        self.window_spec().wf()
    }

    /// The window.
    pub closed spec fn window_spec(&self) -> AnnouncementWindow {
        self.window
    }

    /// The flags.
    pub closed spec fn flags_spec(&self) -> GateFlags {
        self.flags
    }

    /// The playback cursor.
    pub closed spec fn cursor_spec(&self) -> Q {
        self.cursor
    }

    /// A gate over `cursor`, with an open window and all flags down — so it
    /// is blocked until this client takes the speaker.
    pub fn new(cursor: Q) -> (r: Self)
        ensures
            r.wf(),
            r.flags_spec() == (GateFlags { sleeping: false, waking: false, output_enabled: false }),
            !window_blocked(r.window_spec()@),
            r.window_spec()@.playing.len() == 0,
    {
        InjectionGate {
            window: AnnouncementWindow::new(),
            flags: GateFlags { sleeping: false, waking: false, output_enabled: false },
            cursor,
        }
    }

    /// **The predicate.**
    pub fn is_blocked(&self) -> (r: bool)
        ensures
            r == gate_blocked(self.flags_spec(), self.window_spec()@),
    {
        self.flags.sleeping || self.flags.waking || !self.flags.output_enabled
            || self.window.is_blocked()
    }

    /// The announcement window.
    pub fn window(&self) -> (r: &AnnouncementWindow)
        ensures
            *r == self.window_spec(),
    {
        &self.window
    }

    /// The announcement window, mutably.
    pub fn window_mut(&mut self) -> (r: &mut AnnouncementWindow)
        ensures
            *r == old(self).window_spec(),
            final(self).window_spec() == *final(r),
            final(self).flags_spec() == old(self).flags_spec(),
    {
        &mut self.window
    }

    /// The playback cursor.
    pub fn cursor(&self) -> (r: &Q)
        ensures
            *r == self.cursor_spec(),
    {
        &self.cursor
    }

    /// The gateway flags.
    pub fn flags(&self) -> (r: GateFlags)
        ensures
            r == self.flags_spec(),
    {
        self.flags
    }

    /// Replace the gateway flags.
    pub fn set_flags(&mut self, flags: GateFlags)
        ensures
            final(self).flags_spec() == flags,
            final(self).window_spec() == old(self).window_spec(),
    {
        self.flags = flags;
    }

    /// This client took or lost the speaker.
    pub fn set_output_enabled(&mut self, enabled: bool)
        ensures
            final(self).flags_spec() == (GateFlags { output_enabled: enabled, ..old(self).flags_spec() }),
            final(self).window_spec() == old(self).window_spec(),
    {
        self.flags.output_enabled = enabled;
    }

    /// The session entered or left sleep.
    pub fn set_sleeping(&mut self, sleeping: bool)
        ensures
            final(self).flags_spec() == (GateFlags { sleeping, ..old(self).flags_spec() }),
            final(self).window_spec() == old(self).window_spec(),
    {
        self.flags.sleeping = sleeping;
    }

    /// The session started or finished waking.
    pub fn set_waking(&mut self, waking: bool)
        ensures
            final(self).flags_spec() == (GateFlags { waking, ..old(self).flags_spec() }),
            final(self).window_spec() == old(self).window_spec(),
    {
        self.flags.waking = waking;
    }

    /// The client began playing a response's audio; `frames` of it were
    /// queued, `0` when the gateway did not count.
    pub fn playback_started(&mut self, response_id: &str, frames: u64)
        requires
            old(self).wf(),
        ensures
            final(self).wf(),
            final(self).flags_spec() == old(self).flags_spec(),
            final(self).window_spec()@ == (WindowView {
                playing: if response_id@.len() == 0 || old(self).window_spec()@.playing.contains(response_id@) {
                    old(self).window_spec()@.playing
                } else {
                    old(self).window_spec()@.playing.push(response_id@)
                },
                ..old(self).window_spec()@
            }),
    {
        self.window.start_playback(response_id);
        if frames > 0 {
            self.cursor.enqueue(frames);
        }
    }

    /// The client finished, or dropped, a response's audio. When nothing is
    /// left playing, everything still queued is advanced past: the client is
    /// the authority on what it played.
    pub fn playback_finished(&mut self, response_id: &str, has_function_call: bool)
        requires
            old(self).wf(),
        ensures
            final(self).wf(),
            final(self).flags_spec() == old(self).flags_spec(),
            final(self).window_spec()@ == (WindowView {
                audio: crate::strmap::seq_remove_entry(old(self).window_spec()@.audio, response_id@),
                playing: crate::announcement::window::remove_string(old(self).window_spec()@.playing, response_id@),
                turn_pending: if crate::announcement::window::finish_settles(old(self).window_spec()@, response_id@, has_function_call) {
                    false
                } else {
                    old(self).window_spec()@.turn_pending
                },
                ..old(self).window_spec()@
            }),
    {
        self.window.finish_playback(response_id, has_function_call);
        if !self.window.is_playing() {
            let pending = self.cursor.pending_frames();
            if pending > 0 {
                self.cursor.advance(pending);
            }
        }
    }

    /// Whether the client is still draining queued audio.
    pub fn is_draining(&self) -> bool {
        self.cursor.is_draining()
    }

    /// How much audio is still queued at the client, in milliseconds.
    pub fn pending_playback_ms(&self) -> u64 {
        self.cursor.pending_ms()
    }

    /// Drop every playback and window state.
    pub fn reset(&mut self)
        ensures
            final(self).wf(),
            final(self).flags_spec() == old(self).flags_spec(),
            !window_blocked(final(self).window_spec()@),
            final(self).window_spec()@.playing.len() == 0,
            final(self).window_spec()@.active_turn_id.len() == 0,
    {
        self.window.reset();
        self.cursor.clear();
    }
}

/// Whether a client's playback receipt may be acted on: it owns the speaker,
/// it holds the voice slot, and the response is one this session created.
pub fn accepts_playback_receipt(output_enabled: bool, active: bool, response_known: bool) -> (r: bool)
    ensures
        r == (output_enabled && active && response_known),
{
    output_enabled && active && response_known
}

/// Each outer flag blocks on its own, whatever the window
/// says; and with all three clear injection is blocked exactly as the window.
pub proof fn lemma_gate_flags(flags: GateFlags, window: WindowView)
    ensures
        flags.sleeping ==> gate_blocked(flags, window),
        flags.waking ==> gate_blocked(flags, window),
        !flags.output_enabled ==> gate_blocked(flags, window),
        !flags.sleeping && !flags.waking && flags.output_enabled ==> gate_blocked(flags, window)
            == window_blocked(window),
{
}

} // verus!
