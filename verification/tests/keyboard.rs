use ecliptica_data_analyzer::keyboard::{
    wasd_key_event, wasd_virtual_key_bit, KeyEventKind, KeyKind, WasdIdleTracker,
};

const SECOND: u64 = 1000;
const START: u64 = 5_000_000;

#[test]
fn wasd_press_repeat_and_release_events_are_tracked() {
    assert_eq!(wasd_key_event(KeyEventKind::Down(KeyKind::W)), Some((1, true)));
    assert_eq!(wasd_key_event(KeyEventKind::Down(KeyKind::A)), Some((2, true)));
    assert_eq!(wasd_key_event(KeyEventKind::Repeat(KeyKind::S)), Some((4, true)));
    assert_eq!(wasd_key_event(KeyEventKind::Up(KeyKind::D)), Some((8, false)));
    assert_eq!(wasd_key_event(KeyEventKind::Down(KeyKind::Other)), None);
}

#[test]
fn windows_virtual_key_filter_accepts_exactly_wasd() {
    assert_eq!(wasd_virtual_key_bit(0x57), Some(1));
    assert_eq!(wasd_virtual_key_bit(0x41), Some(2));
    assert_eq!(wasd_virtual_key_bit(0x53), Some(4));
    assert_eq!(wasd_virtual_key_bit(0x44), Some(8));
    for key in [0x20, 0x45, 0x25, 0x00] {
        assert_eq!(wasd_virtual_key_bit(key), None);
    }
}

#[test]
fn combat_window_starts_false_and_becomes_true_after_ten_seconds() {
    let start = START;
    let mut tracker = WasdIdleTracker::new(start);
    assert!(!tracker.is_idle(start + 30 * SECOND));

    let round_start = start + 30 * SECOND;
    tracker.set_active_round(Some(1), round_start);
    assert!(!tracker.is_idle(round_start));
    assert!(!tracker.is_idle(round_start + 9_999));
    assert!(tracker.is_idle(round_start + 10 * SECOND));
}

#[test]
fn a_wasd_press_pauses_and_release_restarts_the_sliding_window() {
    let start = START;
    let mut tracker = WasdIdleTracker::new(start);
    tracker.set_active_round(Some(1), start);
    assert!(tracker.is_idle(start + 10 * SECOND));

    let key_press = start + 11 * SECOND;
    tracker.record_key_event(1, true, key_press);
    assert!(!tracker.is_idle(key_press));
    assert!(!tracker.is_idle(key_press + 30 * SECOND));

    let key_release = key_press + 30 * SECOND;
    tracker.record_key_event(1, false, key_release);
    assert!(!tracker.is_idle(key_release + 9_999));
    assert!(tracker.is_idle(key_release + 10 * SECOND));
}

#[test]
fn overlapping_wasd_keys_keep_the_idle_window_paused_until_all_are_released() {
    let start = START;
    let mut tracker = WasdIdleTracker::new(start);
    tracker.set_active_round(Some(1), start);

    tracker.record_key_event(1, true, start + 2 * SECOND);
    tracker.record_key_event(2, true, start + 3 * SECOND);
    tracker.record_key_event(1, false, start + 20 * SECOND);
    assert!(!tracker.is_idle(start + 30 * SECOND));

    tracker.record_key_event(2, false, start + 30 * SECOND);
    assert!(!tracker.is_idle(start + 39 * SECOND));
    assert!(tracker.is_idle(start + 40 * SECOND));
}

#[test]
fn each_new_round_gets_a_fresh_window() {
    let start = START;
    let mut tracker = WasdIdleTracker::new(start);
    tracker.set_active_round(Some(1), start);
    assert!(tracker.is_idle(start + 10 * SECOND));

    let lobby = start + 12 * SECOND;
    tracker.set_active_round(None, lobby);
    assert!(!tracker.is_idle(lobby + 30 * SECOND));

    let next_round = lobby + 30 * SECOND;
    tracker.set_active_round(Some(2), next_round);
    assert!(!tracker.is_idle(next_round));
    assert!(tracker.is_idle(next_round + 10 * SECOND));
}

#[test]
fn a_new_round_resets_even_without_an_observed_lobby_snapshot() {
    let start = START;
    let mut tracker = WasdIdleTracker::new(start);
    tracker.set_active_round(Some(7), start);
    assert!(tracker.is_idle(start + 10 * SECOND));

    let next_round = start + 20 * SECOND;
    tracker.set_active_round(Some(8), next_round);
    assert!(!tracker.is_idle(next_round));
    assert!(tracker.is_idle(next_round + 10 * SECOND));
}

#[test]
fn longest_standstill_uses_the_largest_gap_in_the_round() {
    let start = START;
    let mut tracker = WasdIdleTracker::new(start);
    tracker.set_active_round(Some(3), start);

    tracker.record_key_event(1, true, start + 4 * SECOND);
    tracker.record_key_event(1, false, start + 4 * SECOND);
    tracker.record_key_event(2, true, start + 11 * SECOND);
    tracker.record_key_event(2, false, start + 11 * SECOND);
    let active = tracker.sample(start + 13 * SECOND);
    assert_eq!(active.longest_standstill_seconds, 7);

    tracker.set_active_round(None, start + 14 * SECOND);
    let completed = tracker.sample(start + 20 * SECOND);
    assert_eq!(completed.completed_round, Some(3));
    assert_eq!(completed.completed_longest_standstill_seconds, 7);
}

#[test]
fn a_round_without_wasd_counts_from_round_start_to_finish() {
    let start = START;
    let mut tracker = WasdIdleTracker::new(start);
    tracker.set_active_round(Some(4), start);
    tracker.set_active_round(None, start + 25 * SECOND);

    let completed = tracker.sample(start + 30 * SECOND);
    assert_eq!(completed.completed_longest_standstill_seconds, 25);
}

#[test]
fn idle_requires_an_active_round_and_no_held_key() {
    let mut tracker = WasdIdleTracker::new(START);
    tracker.record_key_event(4, true, START);
    tracker.set_active_round(Some(9), START);
    assert!(!tracker.is_idle(START + 60 * SECOND));
    tracker.record_key_event(4, false, START + 60 * SECOND);
    assert!(tracker.is_idle(START + 70 * SECOND));
    let sample = tracker.sample(START + 70 * SECOND);
    assert_eq!(sample.active_round, Some(9));
    assert!(sample.idle);
    assert_eq!(sample.longest_standstill_seconds, 10);
}
