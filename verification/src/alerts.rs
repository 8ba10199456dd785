//! Boss-lock alerts: when the boss starts or stops targeting the player, and
//! how often a sound may follow.
//!
//! Times are milliseconds on a monotonic clock.
use vstd::prelude::*;

use crate::analysis::{name_key, normalized_name, DataStatus, GameSnapshot, SnapshotView};
use crate::text::{chars_eq, chars_of, trim, trimmed};

verus! {

/// A lock sound plays at most once in this long.
pub const LOCK_SOUND_MIN_GAP_MS: u64 = 5000;

/// An unlock sound plays at most once in this long.
pub const UNLOCK_SOUND_MIN_GAP_MS: u64 = 2000;

/// A change of the boss's target that concerns the player.
#[derive(Debug, Clone, Copy, PartialEq, Eq, Structural)]
pub enum SelfLockTransition {
    /// The boss started targeting the player.
    Locked,
    /// The same boss explicitly moved its target to someone else.
    Unlocked,
}

/// Whether a lock names the player whose name key is `key`.
pub open spec fn lock_is(lock: Option<Seq<char>>, key: Seq<char>) -> bool {
    match lock {
        Some(name) => name_key(name) == key,
        None => false,
    }
}

/// Whether a lock names someone other than the player whose key is `key`.
pub open spec fn lock_is_other(lock: Option<Seq<char>>, key: Seq<char>) -> bool {
    match lock {
        Some(name) => name_key(name) != key,
        None => false,
    }
}

/// Whether both snapshots show the same active boss.
pub open spec fn same_active_boss(previous: SnapshotView, current: SnapshotView) -> bool {
    previous.boss_active && current.boss_active && match (previous.boss, current.boss) {
        (Some(a), Some(b)) => name_key(a) == name_key(b),
        _ => false,
    }
}

/// The transition between two published snapshots for the player named
/// `display_name`. Only a live snapshot following a live or stale one
/// counts, so a replay during recovery raises nothing. A lock on the player
/// is new when the previous snapshot did not show it; an unlock needs the
/// same active boss to name someone else explicitly, so a boss death or a
/// phase change is silent.
pub open spec fn spec_self_lock_transition(previous: SnapshotView, current: SnapshotView, display_name: Seq<
    char,
>) -> Option<SelfLockTransition> {
    if trimmed(display_name).len() == 0 || !(previous.status == DataStatus::Live || previous.status
        == DataStatus::Stale) || current.status != DataStatus::Live {
        None
    } else {
        let key = name_key(display_name);
        let was_self = lock_is(previous.boss_lock, key);
        let is_self = lock_is(current.boss_lock, key);
        if current.boss_active && is_self && !was_self {
            Some(SelfLockTransition::Locked)
        } else if same_active_boss(previous, current) && was_self && lock_is_other(current.boss_lock, key) {
            Some(SelfLockTransition::Unlocked)
        } else {
            None
        }
    }
}

fn same_text(a: &String, b: &Vec<char>) -> (r: bool)
    ensures
        r == (a@ == b@),
{
    let x = chars_of(a.as_str());
    chars_eq(&x, b)
}

/// Whether `lock` is present, and if so whether its key is `key`.
fn lock_key_matches(lock: &Option<String>, key: &Vec<char>) -> (r: Option<bool>)
    ensures
        r == match lock {
            Some(name) => Some(name_key(name@) == key@),
            None => None,
        },
{
    match lock {
        Some(name) => {
            let k = normalized_name(name.as_str());
            Some(same_text(&k, key))
        },
        None => None,
    }
}

fn same_boss(previous: &GameSnapshot, current: &GameSnapshot) -> (r: bool)
    ensures
        r == same_active_boss(previous@, current@),
{
    if !(previous.boss_active && current.boss_active) {
        return false;
    }
    match (&previous.boss, &current.boss) {
        (Some(a), Some(b)) => {
            let ka = normalized_name(a.as_str());
            let kb = normalized_name(b.as_str());
            let ca = chars_of(ka.as_str());
            let cb = chars_of(kb.as_str());
            chars_eq(&ca, &cb)
        },
        _ => false,
    }
}

/// The transition between two published snapshots for the player named
/// `display_name`.
pub fn self_lock_transition(previous: &GameSnapshot, current: &GameSnapshot, display_name: &str) -> (r:
    Option<SelfLockTransition>)
    ensures
        r == spec_self_lock_transition(previous@, current@, display_name@),
{
    let name = chars_of(display_name);
    let t = trim(&name);
    if t.len() == 0 || !(previous.status == DataStatus::Live || previous.status == DataStatus::Stale)
        || current.status != DataStatus::Live {
        return None;
    }
    let k = normalized_name(display_name);
    let key = chars_of(k.as_str());
    let was = lock_key_matches(&previous.boss_lock, &key);
    let now = lock_key_matches(&current.boss_lock, &key);
    let was_self = match was {
        Some(m) => m,
        None => false,
    };
    let is_self = match now {
        Some(m) => m,
        None => false,
    };
    if current.boss_active && is_self && !was_self {
        return Some(SelfLockTransition::Locked);
    }
    let other = match now {
        Some(m) => !m,
        None => false,
    };
    if same_boss(previous, current) && was_self && other {
        Some(SelfLockTransition::Unlocked)
    } else {
        None
    }
}

/// Whether a sound may play at `now` when the last one of its kind played at
/// `last`: never before, or at least `min_gap` ago.
pub open spec fn spec_sound_allowed(last: Option<u64>, now: u64, min_gap: u64) -> bool {
    match last {
        Some(t) => now >= t && now - t >= min_gap,
        None => true,
    }
}

/// Whether a sound may play at `now` after one at `last`.
pub fn sound_allowed(last: Option<u64>, now: u64, min_gap: u64) -> (r: bool)
    ensures
        r == spec_sound_allowed(last, now, min_gap),
{
    match last {
        Some(t) => now >= t && now - t >= min_gap,
        None => true,
    }
}

/// When the last lock and unlock sounds played.
#[derive(Debug, Clone, Copy, PartialEq, Eq, Structural)]
pub struct AlertSounds {
    pub last_lock: Option<u64>,
    pub last_unlock: Option<u64>,
}

/// The sound for a transition at `now`, if its kind has rested long enough.
pub open spec fn spec_alert_sound(s: AlertSounds, transition: Option<SelfLockTransition>, now: u64) -> Option<
    SelfLockTransition,
> {
    match transition {
        Some(SelfLockTransition::Locked) => if spec_sound_allowed(s.last_lock, now, LOCK_SOUND_MIN_GAP_MS) {
            Some(SelfLockTransition::Locked)
        } else {
            None
        },
        Some(SelfLockTransition::Unlocked) => if spec_sound_allowed(
            s.last_unlock,
            now,
            UNLOCK_SOUND_MIN_GAP_MS,
        ) {
            Some(SelfLockTransition::Unlocked)
        } else {
            None
        },
        None => None,
    }
}

impl AlertSounds {
    /// No sound has played yet.
    pub fn new() -> (r: Self)
        ensures
            r == (AlertSounds { last_lock: None, last_unlock: None }),
    {
        AlertSounds { last_lock: None, last_unlock: None }
    }

    /// Decides the sound for a transition at `now` and notes when it played.
    pub fn play(&mut self, transition: Option<SelfLockTransition>, now: u64) -> (r: Option<
        SelfLockTransition,
    >)
        ensures
            r == spec_alert_sound(*old(self), transition, now),
            final(self).last_lock == (if r == Some(SelfLockTransition::Locked) {
                Some(now)
            } else {
                old(self).last_lock
            }),
            final(self).last_unlock == (if r == Some(SelfLockTransition::Unlocked) {
                Some(now)
            } else {
                old(self).last_unlock
            }),
    {
        match transition {
            Some(SelfLockTransition::Locked) => {
                if sound_allowed(self.last_lock, now, LOCK_SOUND_MIN_GAP_MS) {
                    self.last_lock = Some(now);
                    Some(SelfLockTransition::Locked)
                } else {
                    None
                }
            },
            Some(SelfLockTransition::Unlocked) => {
                if sound_allowed(self.last_unlock, now, UNLOCK_SOUND_MIN_GAP_MS) {
                    self.last_unlock = Some(now);
                    Some(SelfLockTransition::Unlocked)
                } else {
                    None
                }
            },
            None => None,
        }
    }
}

/// Without a player name, or outside a live snapshot, nothing is announced.
pub proof fn law_alerts_need_a_name_and_live_data(previous: SnapshotView, current: SnapshotView, display_name: Seq<
    char,
>)
    requires
        trimmed(display_name).len() == 0 || current.status != DataStatus::Live,
    ensures
        spec_self_lock_transition(previous, current, display_name) is None,
{
}

/// A lock is announced only for a lock that names the player on an active
/// boss, and an unlock only after a lock on the player.
pub proof fn law_transitions_follow_the_lock(previous: SnapshotView, current: SnapshotView, display_name: Seq<char>)
    ensures
        spec_self_lock_transition(previous, current, display_name) == Some(SelfLockTransition::Locked) ==> (
        current.boss_active && lock_is(current.boss_lock, name_key(display_name)) && !lock_is(
            previous.boss_lock,
            name_key(display_name),
        )),
        spec_self_lock_transition(previous, current, display_name) == Some(SelfLockTransition::Unlocked) ==> (
        lock_is(previous.boss_lock, name_key(display_name)) && lock_is_other(
            current.boss_lock,
            name_key(display_name),
        )),
{
}

/// An unchanged snapshot never announces anything.
pub proof fn law_unchanged_snapshot_is_silent(s: SnapshotView, display_name: Seq<char>)
    ensures
        spec_self_lock_transition(s, s, display_name) is None,
{
}

/// Two lock sounds are at least the minimum gap apart.
pub proof fn law_lock_sounds_are_spaced(s: AlertSounds, first: u64, second: u64)
    requires
        spec_alert_sound(s, Some(SelfLockTransition::Locked), first) == Some(SelfLockTransition::Locked),
        second >= first,
    ensures
        spec_alert_sound(
            AlertSounds { last_lock: Some(first), ..s },
            Some(SelfLockTransition::Locked),
            second,
        ) == Some(SelfLockTransition::Locked) ==> second - first >= LOCK_SOUND_MIN_GAP_MS,
{
}

} // verus!
