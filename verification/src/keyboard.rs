//! The key-idle tracker: standstill windows of a combat round measured from
//! W, A, S and D presses and releases.
//!
//! Time is counted in milliseconds on a monotonic clock.
use vstd::prelude::*;

use crate::runtime::WasdMetricSample;

verus! {

/// A round is idle after this long without any of W, A, S, D held or
/// pressed.
pub const WASD_IDLE_THRESHOLD_MS: u64 = 10000;

/// A key as the listener reports it.
#[derive(Debug, Clone, Copy, PartialEq, Eq, Structural)]
pub enum KeyKind {
    W,
    A,
    S,
    D,
    Other,
}

/// A key event as the listener reports it.
#[derive(Debug, Clone, Copy, PartialEq, Eq, Structural)]
pub enum KeyEventKind {
    Down(KeyKind),
    Repeat(KeyKind),
    Up(KeyKind),
}

pub open spec fn spec_wasd_key_bit(key: KeyKind) -> Option<u8> {
    match key {
        KeyKind::W => Some(1u8),
        KeyKind::A => Some(2u8),
        KeyKind::S => Some(4u8),
        KeyKind::D => Some(8u8),
        KeyKind::Other => None,
    }
}

/// The bit of a movement key.
pub fn wasd_key_bit(key: KeyKind) -> (r: Option<u8>)
    ensures
        r == spec_wasd_key_bit(key),
{
    match key {
        KeyKind::W => Some(1),
        KeyKind::A => Some(2),
        KeyKind::S => Some(4),
        KeyKind::D => Some(8),
        KeyKind::Other => None,
    }
}

/// The movement key of an event and whether it is held (presses and
/// repeats) or released.
pub fn wasd_key_event(kind: KeyEventKind) -> (r: Option<(u8, bool)>)
    ensures
        r == match kind {
            KeyEventKind::Down(k) | KeyEventKind::Repeat(k) => match spec_wasd_key_bit(k) {
                Some(b) => Some((b, true)),
                None => None,
            },
            KeyEventKind::Up(k) => match spec_wasd_key_bit(k) {
                Some(b) => Some((b, false)),
                None => None,
            },
        },
{
    match kind {
        KeyEventKind::Down(k) | KeyEventKind::Repeat(k) => match wasd_key_bit(k) {
            Some(b) => Some((b, true)),
            None => None,
        },
        KeyEventKind::Up(k) => match wasd_key_bit(k) {
            Some(b) => Some((b, false)),
            None => None,
        },
    }
}

pub open spec fn spec_wasd_virtual_key_bit(key: u32) -> Option<u8> {
    if key == 0x57 {
        Some(1u8)
    } else if key == 0x41 {
        Some(2u8)
    } else if key == 0x53 {
        Some(4u8)
    } else if key == 0x44 {
        Some(8u8)
    } else {
        None
    }
}

/// The bit of a movement key given as a Windows virtual-key code.
pub fn wasd_virtual_key_bit(key: u32) -> (r: Option<u8>)
    ensures
        r == spec_wasd_virtual_key_bit(key),
{
    if key == 0x57 {
        Some(1)
    } else if key == 0x41 {
        Some(2)
    } else if key == 0x53 {
        Some(4)
    } else if key == 0x44 {
        Some(8)
    } else {
        None
    }
}

pub open spec fn elapsed(from: u64, to: u64) -> u64 {
    if to >= from {
        (to - from) as u64
    } else {
        0
    }
}

fn elapsed_ms(from: u64, to: u64) -> (r: u64)
    ensures
        r == elapsed(from, to),
{
    if to >= from {
        to - from
    } else {
        0
    }
}

/// Standstill bookkeeping of the current combat round.
#[derive(Debug, Clone, Copy)]
pub struct WasdIdleTracker {
    /// Bits of the movement keys currently held.
    pub pressed_keys: u8,
    /// Start of the current standstill, when no key is held.
    pub standstill_started_at: Option<u64>,
    pub active_round: Option<u64>,
    /// Longest finished standstill of the round, in milliseconds.
    pub longest_standstill: u64,
    /// The last completed round and its longest standstill.
    pub completed_round: Option<(u64, u64)>,
}

/// The longest standstill including one that ends at `at`.
pub open spec fn finished_longest(t: WasdIdleTracker, at: u64) -> u64 {
    match t.standstill_started_at {
        Some(s) => if elapsed(s, at) > t.longest_standstill {
            elapsed(s, at)
        } else {
            t.longest_standstill
        },
        None => t.longest_standstill,
    }
}

/// The tracker after the open window moves to `round` at `now`: the
/// previous round is archived; a new round starts a fresh standstill unless
/// a key is held.
pub open spec fn round_set(t: WasdIdleTracker, round: Option<u64>, now: u64) -> WasdIdleTracker {
    if round == t.active_round {
        t
    } else {
        let (longest, completed) = match t.active_round {
            Some(previous) => {
                let l = finished_longest(t, now);
                (l, Some((previous, l)))
            },
            None => (t.longest_standstill, t.completed_round),
        };
        WasdIdleTracker {
            pressed_keys: t.pressed_keys,
            standstill_started_at: if round is Some && t.pressed_keys == 0 {
                Some(now)
            } else {
                None
            },
            active_round: round,
            longest_standstill: if round is Some {
                0
            } else {
                longest
            },
            completed_round: completed,
        }
    }
}

/// The tracker after `key` is pressed or released at `at`: the first press
/// ends the standstill, the last release starts a new one (inside a round).
pub open spec fn key_recorded(t: WasdIdleTracker, key: u8, pressed: bool, at: u64) -> WasdIdleTracker {
    let keys = if pressed {
        t.pressed_keys | key
    } else {
        t.pressed_keys & !key
    };
    let was = t.pressed_keys != 0;
    let is = keys != 0;
    if t.active_round is None || was == is {
        WasdIdleTracker { pressed_keys: keys, ..t }
    } else if is {
        WasdIdleTracker {
            pressed_keys: keys,
            longest_standstill: finished_longest(t, at),
            standstill_started_at: None,
            ..t
        }
    } else {
        WasdIdleTracker { pressed_keys: keys, standstill_started_at: Some(at), ..t }
    }
}

pub open spec fn spec_is_idle(t: WasdIdleTracker, now: u64) -> bool {
    t.active_round is Some && match t.standstill_started_at {
        Some(s) => elapsed(s, now) >= WASD_IDLE_THRESHOLD_MS,
        None => false,
    }
}

/// The sample published at `now` (durations in whole seconds).
pub open spec fn spec_sample(t: WasdIdleTracker, now: u64) -> WasdMetricSample {
    WasdMetricSample {
        active_round: t.active_round,
        idle: spec_is_idle(t, now),
        longest_standstill_seconds: if t.active_round is Some {
            (finished_longest(t, now) / 1000) as u64
        } else {
            0
        },
        completed_round: match t.completed_round {
            Some(c) => Some(c.0),
            None => None,
        },
        completed_longest_standstill_seconds: match t.completed_round {
            Some(c) => (c.1 / 1000) as u64,
            None => 0,
        },
    }
}

impl WasdIdleTracker {
    /// A tracker outside any round whose standstill started at `started_at`.
    pub fn new(started_at: u64) -> (r: Self)
        ensures
            r == (WasdIdleTracker {
                pressed_keys: 0,
                standstill_started_at: Some(started_at),
                active_round: None,
                longest_standstill: 0,
                completed_round: None,
            }),
    {
        WasdIdleTracker {
            pressed_keys: 0,
            standstill_started_at: Some(started_at),
            active_round: None,
            longest_standstill: 0,
            completed_round: None,
        }
    }

    /// Ends the current standstill at `at` into the round's maximum.
    pub fn finish_standstill(&mut self, at: u64)
        ensures
            *final(self) == (WasdIdleTracker { longest_standstill: finished_longest(*old(self), at), ..*old(self) }),
    {
        if let Some(started_at) = self.standstill_started_at {
            let d = elapsed_ms(started_at, at);
            if d > self.longest_standstill {
                self.longest_standstill = d;
            }
        }
    }

    /// Moves the open window to `round` at `now`.
    pub fn set_active_round(&mut self, round: Option<u64>, now: u64)
        ensures
            *final(self) == round_set(*old(self), round, now),
    {
        if round == self.active_round {
            return ;
        }
        if let Some(previous_round) = self.active_round {
            self.finish_standstill(now);
            self.completed_round = Some((previous_round, self.longest_standstill));
        }
        if round.is_some() {
            self.standstill_started_at = if self.pressed_keys == 0 {
                Some(now)
            } else {
                None
            };
            self.longest_standstill = 0;
        } else {
            self.standstill_started_at = None;
        }
        self.active_round = round;
    }

    /// Records a press or release of the keys `key` at `at`.
    pub fn record_key_event(&mut self, key: u8, pressed: bool, at: u64)
        ensures
            *final(self) == key_recorded(*old(self), key, pressed, at),
    {
        let was_pressed = self.pressed_keys != 0;
        if pressed {
            self.pressed_keys = self.pressed_keys | key;
        } else {
            self.pressed_keys = self.pressed_keys & !key;
        }
        let is_pressed = self.pressed_keys != 0;
        if self.active_round.is_none() || was_pressed == is_pressed {
            return ;
        }
        if is_pressed {
            self.finish_standstill(at);
            self.standstill_started_at = None;
        } else {
            self.standstill_started_at = Some(at);
        }
    }

    /// Whether the open round has gone ten seconds without movement keys.
    pub fn is_idle(&self, now: u64) -> (r: bool)
        ensures
            r == spec_is_idle(*self, now),
    {
        self.active_round.is_some() && match self.standstill_started_at {
            Some(s) => elapsed_ms(s, now) >= WASD_IDLE_THRESHOLD_MS,
            None => false,
        }
    }

    /// The metric sample at `now`.
    pub fn sample(&self, now: u64) -> (r: WasdMetricSample)
        ensures
            r == spec_sample(*self, now),
    {
        let current = match self.standstill_started_at {
            Some(s) => {
                let d = elapsed_ms(s, now);
                if d > self.longest_standstill {
                    d
                } else {
                    self.longest_standstill
                }
            },
            None => self.longest_standstill,
        };
        WasdMetricSample {
            active_round: self.active_round,
            idle: self.is_idle(now),
            longest_standstill_seconds: if self.active_round.is_some() {
                current / 1000
            } else {
                0
            },
            completed_round: match self.completed_round {
                Some(c) => Some(c.0),
                None => None,
            },
            completed_longest_standstill_seconds: match self.completed_round {
                Some(c) => c.1 / 1000,
                None => 0,
            },
        }
    }
}

/// Within a round a key event never lowers the round's longest standstill,
/// and a press that ends a standstill makes it at least as long as that
/// standstill.
pub proof fn law_longest_standstill_never_shrinks(t: WasdIdleTracker, key: u8, pressed: bool, at: u64)
    ensures
        key_recorded(t, key, pressed, at).longest_standstill >= t.longest_standstill,
        (t.active_round is Some && t.pressed_keys == 0 && key_recorded(t, key, pressed, at).pressed_keys != 0 && t.standstill_started_at
        is Some && t.standstill_started_at->0 <= at) ==> key_recorded(t, key, pressed, at).longest_standstill
            >= at - t.standstill_started_at->0,
{
}


/// A new combat round never inherits idle time: right after the window
/// moves to a new round the tracker is not idle.
pub proof fn law_new_round_starts_fresh(t: WasdIdleTracker, round: u64, now: u64)
    requires
        t.active_round != Some(round),
    ensures
        !spec_is_idle(round_set(t, Some(round), now), now),
        round_set(t, Some(round), now).longest_standstill == 0,
{
}

/// Outside a round the tracker is never idle.
pub proof fn law_no_idle_outside_rounds(t: WasdIdleTracker, now: u64)
    requires
        t.active_round is None,
    ensures
        !spec_is_idle(t, now),
{
}

/// Inside a round, no standstill runs while a key is held.
pub open spec fn tracker_consistent(t: WasdIdleTracker) -> bool {
    t.active_round is Some && t.pressed_keys != 0 ==> t.standstill_started_at is None
}

/// While a movement key is held inside a round the tracker is not idle.
pub proof fn law_held_key_pauses_idleness(t: WasdIdleTracker, key: u8, at: u64, now: u64)
    requires
        t.active_round is Some,
        tracker_consistent(t),
        key != 0,
    ensures
        !spec_is_idle(key_recorded(t, key, true, at), now),
{
    let held = t.pressed_keys;
    assert(held | key != 0) by (bit_vector)
        requires
            key != 0u8,
    ;
}

/// Every operation keeps the tracker consistent.
pub proof fn law_tracker_stays_consistent(t: WasdIdleTracker, key: u8, pressed: bool, at: u64, round: Option<u64>)
    requires
        tracker_consistent(t),
    ensures
        tracker_consistent(key_recorded(t, key, pressed, at)),
        tracker_consistent(round_set(t, round, at)),
{
}

} // verus!
