//! The sleep controller: when a voice session may drop to wake-word-only.
//!
//! Sleeping closes the realtime socket and stops paying for an open session
//! nobody is talking into. It is safe only when nothing is in flight, which is
//! what [`can_sleep`] decides. The controller's own job is narrower: hold the
//! inactivity deadline, re-arm it on activity, and retry politely when the
//! predicate says no.
//!
//! The controller is a state machine. Each step answers the timer it wants
//! armed, tagged with a generation; the host runs the clock, and hands a
//! fired timer back through [`SleepController::timer_fired`]. A timer whose
//! generation is no longer the controller's does nothing, so re-arming never
//! needs to cancel anything.
//!
//! Two properties are worth naming. A refused sleep retries; it does not
//! cancel. And a failed transition rolls back: the controller marks itself
//! sleeping before the transition runs, and un-marks itself when the
//! transition reports failure, arming a retry.

use vstd::prelude::*;

verus! {

/// How soon a refused sleep is retried, in milliseconds.
pub const DEFAULT_RETRY_MS: u64 = 1000;

/// The floor on the retry interval. A zero here would spin.
pub const MIN_RETRY_MS: u64 = 10;

/// The inputs to the gateway's `can_sleep` predicate. Every one of them is a
/// way a session can look idle without being idle.
#[derive(Clone, Copy, Debug, Default, PartialEq, Eq)]
pub struct CanSleepInputs {
    /// This client may capture.
    pub input_enabled: bool,
    /// Wake-word detection is configured.
    pub wake_word_enabled: bool,
    /// This client holds the voice slot.
    pub is_active_client: bool,
    /// The realtime session is usable.
    pub frontend_ready: bool,
    /// The user is talking.
    pub user_speaking: bool,
    /// The announcement window is blocked.
    pub window_blocked: bool,
    /// A connect is in flight.
    pub connecting: bool,
    /// A wake is in flight.
    pub waking: bool,
}

/// Whether a session in this state may sleep: it has a way back in (input
/// or a wake word), holds the voice slot, has a session to close, the user is
/// silent, the window is open, and neither a connect nor a wake is in flight.
pub open spec fn can_sleep_spec(inputs: CanSleepInputs) -> bool {
    &&& inputs.input_enabled || inputs.wake_word_enabled
    &&& inputs.is_active_client
    &&& inputs.frontend_ready
    &&& !inputs.user_speaking
    &&& !inputs.window_blocked
    &&& !inputs.connecting
    &&& !inputs.waking
}

/// The gateway's `can_sleep` predicate.
pub fn can_sleep(inputs: &CanSleepInputs) -> (r: bool)
    ensures
        r == can_sleep_spec(*inputs),
{
    (inputs.input_enabled || inputs.wake_word_enabled) && inputs.is_active_client
        && inputs.frontend_ready && !inputs.user_speaking && !inputs.window_blocked
        && !inputs.connecting && !inputs.waking
}

/// The controller's configuration.
#[derive(Clone, Copy, Debug, PartialEq, Eq)]
pub struct SleepControllerConfig {
    /// How long a session may be idle before it sleeps. `0` disables the
    /// automatic timer entirely.
    pub timeout_ms: u64,
    /// How soon a refused sleep is retried.
    pub retry_ms: u64,
}

/// `max(retry_ms, MIN_RETRY_MS)`.
pub open spec fn floored_retry(retry_ms: u64) -> u64 {
    if retry_ms < MIN_RETRY_MS {
        MIN_RETRY_MS
    } else {
        retry_ms
    }
}

impl SleepControllerConfig {
    /// A configuration with the default retry interval.
    pub fn new(timeout_ms: u64) -> (r: Self)
        ensures
            r.timeout_ms == timeout_ms,
            r.retry_ms == DEFAULT_RETRY_MS,
    {
        SleepControllerConfig { timeout_ms, retry_ms: DEFAULT_RETRY_MS }
    }

    /// Override the retry interval, floored at [`MIN_RETRY_MS`].
    pub fn retry_ms(self, retry_ms: u64) -> (r: Self)
        ensures
            r.timeout_ms == self.timeout_ms,
            r.retry_ms == floored_retry(retry_ms),
    {
        SleepControllerConfig {
            timeout_ms: self.timeout_ms,
            retry_ms: if retry_ms < MIN_RETRY_MS { MIN_RETRY_MS } else { retry_ms },
        }
    }
}

/// A timer the host should arm: fire after `delay_ms` with `generation`.
#[derive(Clone, Copy, Debug, PartialEq, Eq)]
pub struct Timer {
    /// How long to wait, in milliseconds.
    pub delay_ms: u64,
    /// The generation to hand back when it fires.
    pub generation: u64,
}

/// What a fired timer asks of the host.
#[derive(Clone, Copy, Debug, PartialEq, Eq)]
pub enum TimerOutcome {
    /// The timer was superseded, or the controller is disarmed, asleep or
    /// closed: nothing to do.
    Stale,
    /// The predicate refused; arm this retry.
    Retry(Timer),
    /// Run the sleep transition and report how it went through
    /// [`SleepController::transition_finished`].
    Sleep,
}

/// The next generation: one more, wrapping at the top of the range.
pub open spec fn next_generation(g: u64) -> u64 {
    if g == u64::MAX {
        0
    } else {
        (g + 1) as u64
    }
}

pub(crate) fn bump(g: u64) -> (r: u64)
    ensures
        r == next_generation(g),
{
    if g == u64::MAX {
        0
    } else {
        g + 1
    }
}

/// The inactivity timer that drives a session into sleep.
#[derive(Clone, Debug, PartialEq, Eq)]
pub struct SleepController {
    enabled: bool,
    sleeping: bool,
    closed: bool,
    timeout_ms: u64,
    generation: u64,
    retry_ms: u64,
}

/// The abstract state of a controller.
#[derive(Clone, Copy, Debug, PartialEq, Eq)]
pub struct SleepView {
    /// The controller is armed.
    pub enabled: bool,
    /// The session is asleep.
    pub sleeping: bool,
    /// The controller is closed for good.
    pub closed: bool,
    /// The inactivity timeout.
    pub timeout_ms: u64,
    /// The generation a live timer must carry.
    pub generation: u64,
    /// The retry interval.
    pub retry_ms: u64,
}

impl SleepController {
    /// The controller's state.
    pub closed spec fn view(&self) -> SleepView {
        SleepView {
            enabled: self.enabled,
            sleeping: self.sleeping,
            closed: self.closed,
            timeout_ms: self.timeout_ms,
            generation: self.generation,
            retry_ms: self.retry_ms,
        }
    }

    /// The retry interval never drops below the floor, and a closed
    /// controller is neither armed nor asleep.
    pub open spec fn wf(&self) -> bool {
        &&& self@.retry_ms >= MIN_RETRY_MS
        &&& self@.closed ==> !self@.sleeping && !self@.enabled
    }

    /// A disabled, awake controller.
    pub fn new(config: SleepControllerConfig) -> (r: Self)
        ensures
            r.wf(),
            r@ == (SleepView {
                enabled: false,
                sleeping: false,
                closed: false,
                timeout_ms: config.timeout_ms,
                generation: 0,
                retry_ms: floored_retry(config.retry_ms),
            }),
    {
        SleepController {
            enabled: false,
            sleeping: false,
            closed: false,
            timeout_ms: config.timeout_ms,
            generation: 0,
            retry_ms: if config.retry_ms < MIN_RETRY_MS { MIN_RETRY_MS } else { config.retry_ms },
        }
    }

    /// Postpone the deadline: a new generation and a timer at the timeout,
    /// unless the controller is disarmed, asleep or closed. A zero timeout
    /// clears the timer rather than scheduling one immediately.
    pub fn record_activity(&mut self) -> (r: Option<Timer>)
        requires
            old(self).wf(),
        ensures
            final(self).wf(),
            (!old(self)@.enabled || old(self)@.sleeping || old(self)@.closed) ==> final(self)@ == old(self)@
                && r is None,
            (old(self)@.enabled && !old(self)@.sleeping && !old(self)@.closed) ==> {
                &&& final(self)@ == (SleepView { generation: next_generation(old(self)@.generation), ..old(self)@ })
                &&& r == (if old(self)@.timeout_ms > 0 {
                    Some(Timer { delay_ms: old(self)@.timeout_ms, generation: final(self)@.generation })
                } else {
                    None
                })
            },
    {
        if !self.enabled || self.sleeping || self.closed {
            return None;
        }
        self.generation = bump(self.generation);
        if self.timeout_ms > 0 {
            Some(Timer { delay_ms: self.timeout_ms, generation: self.generation })
        } else {
            None
        }
    }

    /// Arm the controller. Answers `false`, and changes nothing, for a closed
    /// controller; otherwise arms it and, with a non-zero timeout, starts the
    /// deadline.
    pub fn enable(&mut self) -> (r: (bool, Option<Timer>))
        requires
            old(self).wf(),
        ensures
            final(self).wf(),
            old(self)@.closed ==> r == (false, None::<Timer>) && final(self)@ == old(self)@,
            !old(self)@.closed ==> {
                &&& r.0
                &&& final(self)@.enabled
                &&& final(self)@.closed == old(self)@.closed
                &&& final(self)@.sleeping == old(self)@.sleeping
                &&& final(self)@.timeout_ms == old(self)@.timeout_ms
                &&& final(self)@.retry_ms == old(self)@.retry_ms
                &&& (old(self)@.timeout_ms > 0 && !old(self)@.sleeping) ==> final(self)@.generation
                    == next_generation(old(self)@.generation)
                    && r.1 == Some(Timer { delay_ms: old(self)@.timeout_ms, generation: final(self)@.generation })
                &&& !(old(self)@.timeout_ms > 0 && !old(self)@.sleeping) ==> final(self)@.generation
                    == old(self)@.generation && r.1 is None
            },
    {
        if self.closed {
            return (false, None);
        }
        self.enabled = true;
        if self.timeout_ms > 0 {
            let timer = self.record_activity();
            (true, timer)
        } else {
            (true, None)
        }
    }

    /// Change the timeout, re-arming if the controller is awake and enabled.
    /// Answers the new timeout. A zero timeout disarms a running timer: the
    /// generation moves on, so the old timer goes stale.
    pub fn set_timeout_ms(&mut self, timeout_ms: u64) -> (r: (u64, Option<Timer>))
        requires
            old(self).wf(),
        ensures
            final(self).wf(),
            r.0 == timeout_ms,
            final(self)@.timeout_ms == timeout_ms,
            final(self)@.enabled == old(self)@.enabled,
            final(self)@.sleeping == old(self)@.sleeping,
            final(self)@.closed == old(self)@.closed,
            final(self)@.retry_ms == old(self)@.retry_ms,
            ({
                let g1 = next_generation(old(self)@.generation);
                if old(self)@.enabled && !old(self)@.sleeping && timeout_ms > 0 && !old(self)@.closed {
                    final(self)@.generation == next_generation(g1)
                        && r.1 == Some(Timer { delay_ms: timeout_ms, generation: final(self)@.generation })
                } else {
                    final(self)@.generation == g1 && r.1 is None
                }
            }),
    {
        self.timeout_ms = timeout_ms;
        self.generation = bump(self.generation);
        if self.enabled && !self.sleeping && self.timeout_ms > 0 {
            let timer = self.record_activity();
            (timeout_ms, timer)
        } else {
            (timeout_ms, None)
        }
    }

    /// A timer fired with `generation`; `can_sleep` is the predicate's answer
    /// now. A superseded timer, or one that fires on a disarmed, sleeping or
    /// closed controller, does nothing. A refused sleep re-arms at the retry
    /// interval under a new generation. Otherwise the controller marks itself
    /// sleeping and asks the host to run the transition.
    pub fn timer_fired(&mut self, generation: u64, can_sleep: bool) -> (r: TimerOutcome)
        requires
            old(self).wf(),
        ensures
            final(self).wf(),
            ({
                let s = old(self)@;
                if !(s.generation == generation && s.enabled && !s.sleeping && !s.closed) {
                    r == TimerOutcome::Stale && final(self)@ == s
                } else if !can_sleep {
                    &&& final(self)@ == (SleepView { generation: next_generation(s.generation), ..s })
                    &&& r == TimerOutcome::Retry(Timer { delay_ms: s.retry_ms, generation: final(self)@.generation })
                } else {
                    r == TimerOutcome::Sleep && final(self)@ == (SleepView { sleeping: true, ..s })
                }
            }),
    {
        if !(self.generation == generation && self.enabled && !self.sleeping && !self.closed) {
            return TimerOutcome::Stale;
        }
        if !can_sleep {
            self.generation = bump(self.generation);
            return TimerOutcome::Retry(Timer { delay_ms: self.retry_ms, generation: self.generation });
        }
        self.sleeping = true;
        TimerOutcome::Sleep
    }

    /// Whether a timer of `generation` would still act: it is the live
    /// generation and the controller is armed, awake and open. A host asks
    /// whether the session may sleep only for such a timer.
    pub fn timer_is_live(&self, generation: u64) -> (r: bool)
        ensures
            r == (self@.generation == generation && self@.enabled && !self@.sleeping && !self@.closed),
    {
        self.generation == generation && self.enabled && !self.sleeping && !self.closed
    }

    /// The sleep transition finished. On success nothing changes. On failure
    /// the controller rolls back, so it never believes it is asleep after a
    /// failed sleep, and arms a retry.
    pub fn transition_finished(&mut self, succeeded: bool) -> (r: Option<Timer>)
        requires
            old(self).wf(),
        ensures
            final(self).wf(),
            succeeded ==> r is None && final(self)@ == old(self)@,
            !succeeded ==> {
                &&& final(self)@ == (SleepView {
                    sleeping: false,
                    generation: next_generation(old(self)@.generation),
                    ..old(self)@
                })
                &&& r == Some(Timer { delay_ms: old(self)@.retry_ms, generation: final(self)@.generation })
            },
    {
        if succeeded {
            return None;
        }
        self.sleeping = false;
        self.generation = bump(self.generation);
        Some(Timer { delay_ms: self.retry_ms, generation: self.generation })
    }

    /// Leave sleep. Answers whether it was actually asleep, and re-arms an
    /// enabled controller. A closed controller answers `false` and changes
    /// nothing.
    pub fn wake(&mut self) -> (r: (bool, Option<Timer>))
        requires
            old(self).wf(),
        ensures
            final(self).wf(),
            old(self)@.closed ==> r == (false, None::<Timer>) && final(self)@ == old(self)@,
            !old(self)@.closed ==> {
                let g1 = next_generation(old(self)@.generation);
                &&& r.0 == old(self)@.sleeping
                &&& !final(self)@.sleeping
                &&& final(self)@.enabled == old(self)@.enabled
                &&& final(self)@.closed == old(self)@.closed
                &&& final(self)@.timeout_ms == old(self)@.timeout_ms
                &&& final(self)@.retry_ms == old(self)@.retry_ms
                &&& if old(self)@.enabled {
                    &&& final(self)@.generation == next_generation(g1)
                    &&& r.1 == (if old(self)@.timeout_ms > 0 {
                        Some(Timer { delay_ms: old(self)@.timeout_ms, generation: final(self)@.generation })
                    } else {
                        None
                    })
                } else {
                    final(self)@.generation == g1 && r.1 is None
                }
            },
    {
        if self.closed {
            return (false, None);
        }
        let was_sleeping = self.sleeping;
        self.sleeping = false;
        self.generation = bump(self.generation);
        if self.enabled {
            let timer = self.record_activity();
            (was_sleeping, timer)
        } else {
            (was_sleeping, None)
        }
    }

    /// Mark the session asleep without running the transition, for a session
    /// that entered sleep by another path. Needs an enabled, open controller.
    pub fn hold_sleeping(&mut self) -> (r: bool)
        requires
            old(self).wf(),
        ensures
            final(self).wf(),
            r == (old(self)@.enabled && !old(self)@.closed),
            r ==> final(self)@ == (SleepView {
                sleeping: true,
                generation: next_generation(old(self)@.generation),
                ..old(self)@
            }),
            !r ==> final(self)@ == old(self)@,
    {
        if !self.enabled || self.closed {
            return false;
        }
        self.generation = bump(self.generation);
        self.sleeping = true;
        true
    }

    /// Disarm and wake, without closing. Any running timer goes stale.
    pub fn disable(&mut self)
        requires
            old(self).wf(),
        ensures
            final(self).wf(),
            final(self)@ == (SleepView {
                enabled: false,
                sleeping: false,
                generation: next_generation(old(self)@.generation),
                ..old(self)@
            }),
    {
        self.enabled = false;
        self.sleeping = false;
        self.generation = bump(self.generation);
    }

    /// Disarm permanently: [`Self::enable`] answers `false` afterwards.
    pub fn close(&mut self)
        requires
            old(self).wf(),
        ensures
            final(self).wf(),
            final(self)@ == (SleepView {
                enabled: false,
                sleeping: false,
                closed: true,
                generation: next_generation(old(self)@.generation),
                ..old(self)@
            }),
    {
        self.disable();
        self.closed = true;
    }

    /// Whether the session is asleep.
    pub fn is_sleeping(&self) -> (r: bool)
        ensures
            r == self@.sleeping,
    {
        self.sleeping
    }

    /// Whether the controller is armed.
    pub fn is_enabled(&self) -> (r: bool)
        ensures
            r == self@.enabled,
    {
        self.enabled
    }

    /// The current timeout.
    pub fn timeout_ms(&self) -> (r: u64)
        ensures
            r == self@.timeout_ms,
    {
        self.timeout_ms
    }

    /// The retry interval.
    pub fn retry_ms(&self) -> (r: u64)
        ensures
            r == self@.retry_ms,
    {
        self.retry_ms
    }
}

/// The two conditions, besides the switch itself, that make wake-word
/// preparation a no-op before it ever looks at a locale.
#[derive(Clone, Copy, Debug, Default, PartialEq, Eq)]
pub struct WakeWordPrepareInputs {
    /// The client will never play audio.
    pub non_voice_client: bool,
    /// The host holds the microphone.
    pub input_suspended: bool,
}

/// Whether preparing wake-word detection applies at all: the switch is on,
/// the client plays audio, and the microphone is not suspended.
pub fn wake_word_applicable(enabled: bool, inputs: WakeWordPrepareInputs) -> (r: bool)
    ensures
        r == (enabled && !inputs.non_voice_client && !inputs.input_suspended),
{
    enabled && !inputs.non_voice_client && !inputs.input_suspended
}

/// Sleep is allowed exactly for an idle session with a way back in: it may
/// capture or listen for the wake word (either or both), holds the voice
/// slot, is ready, the user is silent, the window is open, and no connect
/// or wake is in flight.
pub proof fn lemma_idle_session_may_sleep(inputs: CanSleepInputs)
    ensures
        can_sleep_spec(inputs) ==> inputs.input_enabled || inputs.wake_word_enabled,
        can_sleep_spec(inputs) ==> inputs.is_active_client && inputs.frontend_ready,
        can_sleep_spec(inputs) ==> !inputs.user_speaking && !inputs.window_blocked && !inputs.connecting
            && !inputs.waking,
        inputs.is_active_client && inputs.frontend_ready && (inputs.input_enabled || inputs.wake_word_enabled)
            && !inputs.user_speaking && !inputs.window_blocked && !inputs.connecting && !inputs.waking
            ==> can_sleep_spec(inputs),
{
}

/// More ways back in never forbid sleep: enabling capture or the wake word
/// on a session that may sleep leaves it free to sleep.
pub proof fn lemma_more_ways_back_never_forbid_sleep(a: CanSleepInputs, b: CanSleepInputs)
    requires
        can_sleep_spec(a),
        a.input_enabled ==> b.input_enabled,
        a.wake_word_enabled ==> b.wake_word_enabled,
        b.is_active_client == a.is_active_client,
        b.frontend_ready == a.frontend_ready,
        b.user_speaking == a.user_speaking,
        b.window_blocked == a.window_blocked,
        b.connecting == a.connecting,
        b.waking == a.waking,
    ensures
        can_sleep_spec(b),
{
}

} // verus!
