use ecliptica_data_analyzer::analysis::{GameSnapshot, Ratio, RoundPhase, RoundReport};
use ecliptica_data_analyzer::runtime::{WasdMetricSample, WasdMetricState};

fn ratio(numerator: u64, denominator: u64) -> Ratio {
    Ratio { numerator, denominator }
}

#[test]
fn idle_metric_cannot_cross_combat_rounds() {
    let previous_round_idle = WasdMetricState {
        available: true,
        sample: WasdMetricSample { active_round: Some(7), idle: true, ..WasdMetricSample::default() },
    };
    let mut next_round =
        GameSnapshot { phase: RoundPhase::Combat, combat_round_epoch: 8, ..GameSnapshot::default() };

    previous_round_idle.apply_to(&mut next_round);

    assert!(next_round.wasd_listener_available);
    assert!(!next_round.no_wasd_for_10s);
}

#[test]
fn idle_metric_only_applies_to_its_exact_active_round() {
    let current_round_idle = WasdMetricState {
        available: true,
        sample: WasdMetricSample { active_round: Some(8), idle: true, ..WasdMetricSample::default() },
    };
    let mut snapshot = GameSnapshot {
        phase: RoundPhase::Combat,
        round_metrics_active: true,
        combat_round_epoch: 8,
        ..GameSnapshot::default()
    };

    current_round_idle.apply_to(&mut snapshot);
    assert!(snapshot.no_wasd_for_10s);

    snapshot.phase = RoundPhase::Lobby;
    snapshot.round_metrics_active = false;
    current_round_idle.apply_to(&mut snapshot);
    assert!(!snapshot.no_wasd_for_10s);
}

#[test]
fn completed_round_standstill_is_attached_to_its_report_only() {
    let metric = WasdMetricState {
        available: true,
        sample: WasdMetricSample {
            completed_round: Some(8),
            completed_longest_standstill_seconds: 27,
            ..WasdMetricSample::default()
        },
    };
    let mut snapshot = GameSnapshot {
        phase: RoundPhase::Lobby,
        combat_round_epoch: 8,
        round_report: Some(RoundReport {
            has_duration_data: true,
            has_output_data: true,
            duration_seconds: 60,
            total_damage: 100,
            average_dps: ratio(2, 1),
            max_dps: 10,
            effective_dps: ratio(4, 1),
            burst_10s_dps: Some(ratio(5, 1)),
            previous_effective_dps: None,
            damage_taken: 3,
            has_longest_standstill_data: false,
            longest_standstill_seconds: 0,
        }),
        ..GameSnapshot::default()
    };

    metric.apply_to(&mut snapshot);
    let report = snapshot.round_report.as_ref().unwrap();
    assert!(report.has_longest_standstill_data);
    assert_eq!(report.longest_standstill_seconds, 27);
    assert_eq!(report.longest_standstill_text(), "27");

    snapshot.combat_round_epoch = 9;
    metric.apply_to(&mut snapshot);
    let report = snapshot.round_report.as_ref().unwrap();
    assert!(!report.has_longest_standstill_data);
    assert_eq!(report.longest_standstill_text(), "-");
}

#[test]
fn an_unavailable_listener_publishes_an_empty_sample() {
    let sample = WasdMetricSample { active_round: Some(3), idle: true, ..WasdMetricSample::default() };
    let state = WasdMetricState::published(false, sample);
    assert!(!state.available);
    assert_eq!(state.sample, WasdMetricSample::default());
    assert_eq!(WasdMetricState::published(true, sample).sample, sample);
}
