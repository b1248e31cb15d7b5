//! Double-tap detection on the modifier key.
//!
//! The detector consumes the OS-wide key event stream, one event at a time,
//! each stamped with a reading of a monotonic clock in milliseconds. A
//! release of the modifier followed by a press of the modifier within the
//! configured window fires the gesture; any other key in between cancels it,
//! and the release that ends the second tap is swallowed by a cooldown.
use vstd::prelude::*;

verus! {

/// Default length of the double-tap window and of the cooldown, in milliseconds.
pub const DOUBLE_ALT_COOLDOWN: u64 = 500;

/// The keys the detector tells apart: the configured modifier and everything else.
#[derive(Clone, Copy, Debug, PartialEq, Eq, Structural)]
pub enum Key {
    Modifier,
    Other,
}

/// A raw key event from the OS input hook.
#[derive(Clone, Copy, Debug, PartialEq, Eq, Structural)]
pub enum KeyEvent {
    Press(Key),
    Release(Key),
}

/// Gesture state, owned by the listener thread for the lifetime of the process.
#[derive(Clone, Copy, Debug)]
pub struct GestureDetector {
    /// Length of the double-tap window and of the cooldown.
    pub window_ms: u64,
    /// When the modifier was last released outside a cooldown, while that
    /// release still waits for its second tap.
    pub last_release: Option<u64>,
    /// The next release of the modifier before this instant is ignored and
    /// ends the cooldown.
    pub cooldown_until: Option<u64>,
}

/// Time from `from` to `now`; zero when the clock reads earlier than `from`.
pub open spec fn elapsed(from: u64, now: u64) -> int {
    if now >= from {
        now - from
    } else {
        0
    }
}

/// `a + b`, capped at the largest `u64`.
pub open spec fn saturating_sum(a: u64, b: u64) -> u64 {
    if a + b > u64::MAX {
        u64::MAX
    } else {
        (a + b) as u64
    }
}

impl GestureDetector {
    /// At most one of "awaiting the second tap" and "in cooldown" is live:
    /// a recorded release never lies before the end of the cooldown.
    pub open spec fn wf(self) -> bool {
        self.last_release matches Some(t) ==> (self.cooldown_until matches Some(c) ==> c <= t)
    }

    /// A release of the modifier at `now` falls in the cooldown.
    pub open spec fn in_cooldown(self, now: u64) -> bool {
        self.cooldown_until matches Some(c) && now < c
    }

    /// A press of the modifier at `now` would be the second tap.
    pub open spec fn awaits_second_tap(self, now: u64) -> bool {
        self.last_release matches Some(t) && elapsed(t, now) <= self.window_ms
    }

    /// The event completes the double tap.
    pub open spec fn fires(self, e: KeyEvent, now: u64) -> bool {
        e == KeyEvent::Press(Key::Modifier) && self.awaits_second_tap(now)
    }

    /// The state after the event.
    pub open spec fn next(self, e: KeyEvent, now: u64) -> GestureDetector {
        match e {
            KeyEvent::Press(Key::Modifier) => {
                if self.awaits_second_tap(now) {
                    GestureDetector {
                        last_release: None,
                        cooldown_until: Some(saturating_sum(now, self.window_ms)),
                        ..self
                    }
                } else {
                    GestureDetector { last_release: None, ..self }
                }
            },
            KeyEvent::Release(Key::Modifier) => {
                if self.in_cooldown(now) {
                    GestureDetector { cooldown_until: None, ..self }
                } else {
                    GestureDetector { last_release: Some(now), ..self }
                }
            },
            _ => GestureDetector { last_release: None, ..self },
        }
    }

    /// A detector in the idle state.
    pub fn new(window_ms: u64) -> (r: GestureDetector)
        ensures
            r.window_ms == window_ms,
            r.last_release is None,
            r.cooldown_until is None,
            r.wf(),
    {
        GestureDetector { window_ms, last_release: None, cooldown_until: None }
    }

    /// Feeds one key event observed at `now`. Returns whether the window must
    /// be summoned: the gesture fired and delivery is `enabled`. The state
    /// moves on in the same way whether or not delivery is enabled.
    pub fn on_event(&mut self, e: KeyEvent, now: u64, enabled: bool) -> (summon: bool)
        ensures
            *final(self) == old(self).next(e, now),
            summon == (enabled && old(self).fires(e, now)),
            old(self).wf() ==> final(self).wf(),
    {
        match e {
            KeyEvent::Press(Key::Modifier) => {
                let second_tap = match self.last_release {
                    Some(t) => {
                        let waited: u64 = if now >= t {
                            now - t
                        } else {
                            0
                        };
                        waited <= self.window_ms
                    },
                    None => false,
                };
                self.last_release = None;
                if second_tap {
                    self.cooldown_until = Some(now.saturating_add(self.window_ms));
                }
                second_tap && enabled
            },
            KeyEvent::Release(Key::Modifier) => {
                let ignored = match self.cooldown_until {
                    Some(c) => now < c,
                    None => false,
                };
                if ignored {
                    self.cooldown_until = None;
                } else {
                    self.last_release = Some(now);
                }
                false
            },
            _ => {
                self.last_release = None;
                false
            },
        }
    }
}

/// A release of the modifier at `t0` followed by a press of the modifier at
/// `t1` fires the gesture exactly when `t1` lies within the window after
/// `t0`; once fired, a further press does not fire again.
pub proof fn lemma_double_tap_timing(d: GestureDetector, t0: u64, t1: u64)
    requires
        !d.in_cooldown(t0),
        t0 <= t1,
    ensures
        ({
            let d1 = d.next(KeyEvent::Release(Key::Modifier), t0);
            &&& d1.fires(KeyEvent::Press(Key::Modifier), t1) <==> t1 - t0 <= d.window_ms
            &&& forall|t2: u64|
                !#[trigger] d1.next(KeyEvent::Press(Key::Modifier), t1).fires(
                    KeyEvent::Press(Key::Modifier),
                    t2,
                )
        }),
{
}

/// Any other key, pressed or released between the two taps, cancels the
/// double tap.
pub proof fn lemma_intervening_key_cancels(
    d: GestureDetector,
    t0: u64,
    other: KeyEvent,
    t1: u64,
    t2: u64,
)
    requires
        other == KeyEvent::Press(Key::Other) || other == KeyEvent::Release(Key::Other),
    ensures
        !d.next(KeyEvent::Release(Key::Modifier), t0).next(other, t1).fires(
            KeyEvent::Press(Key::Modifier),
            t2,
        ),
{
}

/// After the gesture fires at `t`, a release of the modifier before `t` plus
/// the window is ignored: nothing awaits a second tap and the cooldown is
/// over. A release from `t` plus the window on starts a fresh cycle.
pub proof fn lemma_cooldown_suppresses_retrigger(d: GestureDetector, t: u64, t1: u64)
    requires
        d.fires(KeyEvent::Press(Key::Modifier), t),
        t + d.window_ms <= u64::MAX,
    ensures
        ({
            let fired = d.next(KeyEvent::Press(Key::Modifier), t);
            let after = fired.next(KeyEvent::Release(Key::Modifier), t1);
            &&& t <= t1 < t + d.window_ms ==> after.last_release is None
                && after.cooldown_until is None && after.window_ms == d.window_ms
            &&& t1 >= t + d.window_ms ==> after.last_release == Some(t1) && after.awaits_second_tap(
                t1,
            )
        }),
{
}

} // verus!
