use ecliptica_data_analyzer::alerts::{
    self_lock_transition, sound_allowed, AlertSounds, SelfLockTransition, LOCK_SOUND_MIN_GAP_MS,
    UNLOCK_SOUND_MIN_GAP_MS,
};
use ecliptica_data_analyzer::analysis::{DataStatus, GameSnapshot};

fn live_boss(name: &str, lock: Option<&str>) -> GameSnapshot {
    GameSnapshot {
        boss: Some(name.to_owned()),
        boss_lock: lock.map(str::to_owned),
        boss_active: true,
        status: DataStatus::Live,
        ..GameSnapshot::default()
    }
}

#[test]
fn detects_lock_and_explicit_transfer_away() {
    let other = live_boss("Jim", Some("Other"));
    let me = live_boss("Jim", Some("Alice"));
    assert_eq!(self_lock_transition(&other, &me, "Alice"), Some(SelfLockTransition::Locked));
    assert_eq!(self_lock_transition(&me, &other, "Alice"), Some(SelfLockTransition::Unlocked));
}

#[test]
fn detects_first_lock_when_new_log_activity_recovers_from_stale() {
    let stale = GameSnapshot { status: DataStatus::Stale, ..GameSnapshot::default() };
    let me = live_boss("Jim", Some("Alice"));
    assert_eq!(self_lock_transition(&stale, &me, "Alice"), Some(SelfLockTransition::Locked));
}

#[test]
fn startup_recovery_does_not_treat_replayed_lock_as_new() {
    let recovering = GameSnapshot { status: DataStatus::Recovering, ..GameSnapshot::default() };
    let me = live_boss("Jim", Some("Alice"));
    assert_eq!(self_lock_transition(&recovering, &me, "Alice"), None);
}

#[test]
fn boss_death_and_phase_change_do_not_play_unlock_sound() {
    let me = live_boss("JimPhase1", Some("Alice"));
    let dead = GameSnapshot { status: DataStatus::Live, ..GameSnapshot::default() };
    let next_phase = live_boss("JimPhase2", Some("Other"));
    assert_eq!(self_lock_transition(&me, &dead, "Alice"), None);
    assert_eq!(self_lock_transition(&me, &next_phase, "Alice"), None);
}

#[test]
fn names_are_compared_by_their_normalized_keys() {
    let other = live_boss("Jim", Some("Other"));
    let me = live_boss("jim", Some("  ＡLICE "));
    assert_eq!(self_lock_transition(&other, &me, "alice"), Some(SelfLockTransition::Locked));
    assert_eq!(self_lock_transition(&other, &me, "   "), None);
}

#[test]
fn alert_sounds_rest_between_plays() {
    let mut sounds = AlertSounds::new();
    assert_eq!(sounds.play(Some(SelfLockTransition::Locked), 1_000), Some(SelfLockTransition::Locked));
    assert_eq!(sounds.play(Some(SelfLockTransition::Locked), 1_000 + LOCK_SOUND_MIN_GAP_MS - 1), None);
    assert_eq!(
        sounds.play(Some(SelfLockTransition::Locked), 1_000 + LOCK_SOUND_MIN_GAP_MS),
        Some(SelfLockTransition::Locked)
    );
    assert_eq!(sounds.play(Some(SelfLockTransition::Unlocked), 1_500), Some(SelfLockTransition::Unlocked));
    assert_eq!(sounds.play(Some(SelfLockTransition::Unlocked), 1_500 + UNLOCK_SOUND_MIN_GAP_MS - 1), None);
    assert_eq!(sounds.play(None, 99_000), None);
    assert!(sound_allowed(None, 0, LOCK_SOUND_MIN_GAP_MS));
}
