use chrono::{Local, TimeZone};
use ecliptica_data_analyzer::analysis::{DpsHistoryPoint, Ratio, RoundPhase, StepEstimate};
use ecliptica_data_analyzer::analyzer::Analyzer;
use ecliptica_data_analyzer::log_protocol::DiagnosticCode;

fn line(second: u32, message: &str) -> String {
    format!("2026.08.03 01:02:{second:02} Debug      -  {message}")
}

fn timestamp(second: u32) -> i64 {
    Local.with_ymd_and_hms(2026, 8, 3, 1, 2, second).earliest().unwrap().timestamp()
}

fn timeline_line(offset_seconds: i64, message: &str) -> String {
    let time = Local.with_ymd_and_hms(2026, 8, 3, 1, 0, 0).earliest().unwrap()
        + chrono::Duration::seconds(offset_seconds);
    format!("{} Debug      -  {message}", time.format("%Y.%m.%d %H:%M:%S"))
}

fn timeline_timestamp(offset_seconds: i64) -> i64 {
    Local.with_ymd_and_hms(2026, 8, 3, 1, 0, 0).earliest().unwrap().timestamp() + offset_seconds
}

fn value(r: Ratio) -> f64 {
    r.numerator as f64 / r.denominator as f64
}

fn feed(analyzer: &mut Analyzer, lines: &[(u32, &str)]) {
    for (second, message) in lines {
        analyzer.process_line(&line(*second, message), None);
    }
}

const ENTER: &str = "[Behaviour] Entering Room: Ecliptica - Demo Playtest";
const LOBBY: &str = "ECLIPTICA - now in intermission";
const STAGE: &str = "ECLIPTICA - now in stage: Stage_Demo";

#[test]
fn parses_strike_and_non_strike_into_complete_seconds() {
    let mut analyzer = Analyzer::new();
    feed(
        &mut analyzer,
        &[
            (0, ENTER),
            (1, LOBBY),
            (2, STAGE),
            (5, "Dealing 30 STRIKE damage"),
            (5, "Dealing 12 NON-STRIKE damage"),
        ],
    );
    let snapshot = analyzer.snapshot_at(timestamp(6));
    assert_eq!(snapshot.latest_dps, 42);
    assert_eq!(value(snapshot.average_dps), 1.4);
}

#[test]
fn distinguishes_missing_damage_data_from_a_real_zero_second() {
    let mut analyzer = Analyzer::new();
    feed(&mut analyzer, &[(0, ENTER), (1, LOBBY), (2, STAGE)]);
    let base = timestamp(0);
    assert_eq!(analyzer.snapshot_at(base + 5).latest_dps_text(), "-");

    analyzer.process_line(&line(5, "Dealing 42 STRIKE damage"), None);
    assert_eq!(analyzer.snapshot_at(base + 6).latest_dps_text(), "42");
    assert_eq!(analyzer.snapshot_at(base + 7).latest_dps_text(), "42");
    assert_eq!(analyzer.snapshot_at(base + 9).latest_dps_text(), "42");
    assert_eq!(analyzer.snapshot_at(base + 10).latest_dps_text(), "0");
}

#[test]
fn realtime_dps_keeps_tracking_lobby_damage_without_changing_round_metrics() {
    let mut analyzer = Analyzer::new();
    feed(&mut analyzer, &[(0, ENTER), (1, LOBBY), (5, "Dealing 42 STRIKE damage")]);

    let lobby = analyzer.snapshot_at(timestamp(6));
    assert_eq!(lobby.phase, RoundPhase::Lobby);
    assert_eq!(lobby.realtime_dps_text(), "42");
    assert_eq!(lobby.latest_dps_text(), "-");
    assert!(!lobby.has_damage_data);

    feed(&mut analyzer, &[(10, STAGE), (12, "Dealing 30 STRIKE damage")]);
    let combat = analyzer.snapshot_at(timestamp(13));
    assert_eq!(combat.realtime_dps_text(), "30");
    assert_eq!(combat.latest_dps_text(), "30");

    feed(&mut analyzer, &[(14, LOBBY)]);
    let next_lobby = analyzer.snapshot_at(timestamp(15));
    assert_eq!(next_lobby.realtime_dps_text(), "30");
    assert_eq!(next_lobby.latest_dps_text(), "-");
}

#[test]
fn max_dps_preserves_a_real_zero_damage_record_as_available() {
    let mut analyzer = Analyzer::new();
    feed(&mut analyzer, &[(0, ENTER), (1, LOBBY), (2, STAGE), (5, "Dealing 0 STRIKE damage")]);

    let snapshot = analyzer.snapshot_at(timestamp(6));
    assert!(snapshot.has_max_dps_data);
    assert_eq!(snapshot.max_dps_text(), "0");

    feed(&mut analyzer, &[(7, LOBBY)]);
    let report = analyzer
        .snapshot_at(timestamp(8))
        .round_report
        .expect("a real zero-damage record should still produce a report");
    assert!(report.has_output_data);
    assert_eq!(value(report.average_dps), 0.0);
    assert_eq!(report.max_dps_text(), "0");
    assert_eq!(value(report.effective_dps), 0.0);

    feed(&mut analyzer, &[(9, "[Behaviour] OnLeftRoom")]);
    let outside = analyzer.snapshot_at(timestamp(10));
    assert!(!outside.has_max_dps_data);
    assert_eq!(outside.max_dps_text(), "-");
}

#[test]
fn rapid_damage_danger_uses_a_rolling_ten_second_strict_threshold() {
    let mut analyzer = Analyzer::new();
    feed(
        &mut analyzer,
        &[
            (0, ENTER),
            (1, LOBBY),
            (2, STAGE),
            (5, "damage has been taken: 30, from source: projectile1"),
            (14, "damage has been taken: 20, from source: attack_Spit"),
        ],
    );
    assert!(!analyzer.snapshot_at(timestamp(14)).rapid_damage_danger);

    feed(&mut analyzer, &[(14, "damage has been taken: 1, from source:")]);
    assert!(analyzer.snapshot_at(timestamp(14)).rapid_damage_danger);
    assert!(analyzer.snapshot_at(timestamp(15)).rapid_damage_danger);
    assert!(!analyzer.snapshot_at(timestamp(16)).rapid_damage_danger);

    feed(&mut analyzer, &[(17, "damage has been taken: 60, from source: Boss")]);
    assert!(analyzer.snapshot_at(timestamp(17)).rapid_damage_danger);
    feed(&mut analyzer, &[(18, LOBBY)]);
    assert!(!analyzer.snapshot_at(timestamp(18)).rapid_damage_danger);
}

#[test]
fn no_dps_flag_requires_ten_quiet_combat_seconds() {
    let mut analyzer = Analyzer::new();
    feed(&mut analyzer, &[(0, ENTER), (1, LOBBY), (2, STAGE)]);

    assert!(!analyzer.snapshot_at(timestamp(11)).no_dps_for_10s);
    assert!(analyzer.snapshot_at(timestamp(12)).no_dps_for_10s);

    feed(&mut analyzer, &[(12, "Dealing 30 STRIKE damage")]);
    assert!(!analyzer.snapshot_at(timestamp(12)).no_dps_for_10s);
    assert!(!analyzer.snapshot_at(timestamp(21)).no_dps_for_10s);
    assert!(analyzer.snapshot_at(timestamp(22)).no_dps_for_10s);

    feed(&mut analyzer, &[(23, LOBBY)]);
    assert!(!analyzer.snapshot_at(timestamp(23)).no_dps_for_10s);
}

#[test]
fn no_dps_flag_ignores_late_join_spectators() {
    let mut analyzer = Analyzer::new();
    feed(
        &mut analyzer,
        &[
            (0, "[Behaviour] Entering Room: Ecliptica - Active Instance"),
            (1, "ECLIPTICA - now in stage: Stage_Active"),
        ],
    );
    let snapshot = analyzer.snapshot_at(timestamp(30));
    assert_eq!(snapshot.phase, RoundPhase::Combat);
    assert!(!snapshot.round_metrics_active);
    assert!(!snapshot.no_dps_for_10s);
}

#[test]
fn round_average_uses_real_damage_and_elapsed_complete_seconds() {
    let mut analyzer = Analyzer::new();
    feed(&mut analyzer, &[(0, ENTER), (1, LOBBY), (2, STAGE), (5, "Dealing 60 STRIKE damage")]);
    let base = timestamp(0);

    assert_eq!(value(analyzer.snapshot_at(base + 6).round_average_dps), 60.0);
    assert_eq!(value(analyzer.snapshot_at(base + 8).round_average_dps), 20.0);

    feed(&mut analyzer, &[(8, "Dealing 20 NON-STRIKE damage")]);
    assert_eq!(value(analyzer.snapshot_at(base + 9).round_average_dps), 20.0);
    feed(&mut analyzer, &[(10, LOBBY)]);
    assert!(!analyzer.snapshot_at(base + 11).has_damage_data);
}

#[test]
fn archives_round_report_during_intermission_and_clears_it_on_next_stage() {
    let mut analyzer = Analyzer::new();
    feed(
        &mut analyzer,
        &[
            (0, ENTER),
            (0, LOBBY),
            (1, STAGE),
            (5, "Dealing 30 STRIKE damage"),
            (5, "Dealing 12 NON-STRIKE damage"),
        ],
    );
    let base = timestamp(0);
    analyzer.snapshot_at(base + 45);
    feed(&mut analyzer, &[(50, LOBBY)]);

    let report = analyzer
        .snapshot_at(i64::MAX)
        .round_report
        .expect("completed round should be archived");
    assert_eq!(report.duration_seconds, 49);
    assert_eq!(report.duration_text(), "00:49");
    assert_eq!(report.total_damage, 42);
    assert!((value(report.average_dps) - 42.0 / 45.0).abs() < f64::EPSILON);
    assert_eq!(report.max_dps, 42);
    assert_eq!(value(report.effective_dps), 14.0);
    assert_eq!(report.burst_10s_dps.map(value), Some(4.2));
    assert_eq!(report.damage_taken, 0);

    feed(&mut analyzer, &[(55, "ECLIPTICA - now in stage: Stage_Next")]);
    assert!(analyzer.snapshot_at(i64::MAX).round_report.is_none());
}

#[test]
fn lobby_combat_noise_preserves_report_until_a_stage_marker() {
    let mut analyzer = Analyzer::new();
    feed(
        &mut analyzer,
        &[
            (0, ENTER),
            (0, LOBBY),
            (1, "ECLIPTICA - now in stage: Stage_First"),
            (5, "Dealing 42 STRIKE damage"),
            (10, LOBBY),
        ],
    );

    let report = analyzer.snapshot_at(timestamp(11));
    assert_eq!(report.phase, RoundPhase::Lobby);
    assert!(report.round_report.is_some());
    let completed_epoch = report.combat_round_epoch;

    feed(
        &mut analyzer,
        &[
            (12, "Dealing 999 STRIKE damage"),
            (12, "damage has been taken: 50, from source: TrainingDummy"),
            (12, "ECLIPTICA - now fighting boss: Maxipuss(Clone) on phase: 1"),
        ],
    );

    let still_lobby = analyzer.snapshot_at(timestamp(12));
    assert_eq!(still_lobby.phase, RoundPhase::Lobby);
    assert!(still_lobby.round_report.is_some());
    assert_eq!(still_lobby.combat_round_epoch, completed_epoch);
    assert!(!still_lobby.has_damage_data);
    assert_eq!(still_lobby.round_damage_taken, 0);
    assert!(still_lobby.boss.is_none());

    feed(&mut analyzer, &[(13, "ECLIPTICA - now in stage: Stage_Next")]);
    let combat = analyzer.snapshot_at(timestamp(13));
    assert_eq!(combat.phase, RoundPhase::Combat);
    assert!(combat.round_report.is_none());
    assert_eq!(combat.combat_round_epoch, completed_epoch + 1);
    assert!(combat.round_metrics_active);
}

#[test]
fn jim_phase_three_death_immediately_archives_report_and_hides_step_estimate() {
    let mut analyzer = Analyzer::new();
    let estimate = Some(StepEstimate { current: 12, until_boss: 0 });
    feed(&mut analyzer, &[(0, ENTER), (1, "ECLIPTICA - now in lobby")]);
    analyzer.process_line(
        &line(2, "ECLIPTICA - now in stage: Stage_Bringer on phase: 1 as class: Twinmage"),
        estimate,
    );
    analyzer.process_line(&line(5, "Dealing 120 STRIKE damage"), estimate);
    analyzer.process_line(
        &line(6, "ECLIPTICA - now fighting boss: JimBringerPhase3(Clone) on phase: 1"),
        estimate,
    );
    analyzer.process_line(&line(10, "Boss JimBringerPhase3 dead, personal damage dealt:"), estimate);

    let ending_scene = analyzer.snapshot_at(timestamp(10));
    assert_eq!(ending_scene.phase, RoundPhase::Lobby);
    assert_eq!(ending_scene.round_report.as_ref().map(|report| report.total_damage), Some(120));
    assert!(!ending_scene.has_step_estimate);
    assert_eq!(ending_scene.current_step, 0);
    assert_eq!(ending_scene.until_boss_step, 0);

    analyzer.process_line(&line(11, "Boss JimBringerPhase3 dead, personal damage dealt:"), estimate);
    analyzer.process_line(&line(58, "ECLIPTICA - now in lobby"), estimate);
    let initial_lobby = analyzer.snapshot_at(timestamp(58));
    assert_eq!(initial_lobby.round_report.as_ref().map(|report| report.total_damage), Some(120));
    assert!(!initial_lobby.has_step_estimate);
}

#[test]
fn earlier_jim_phase_death_does_not_end_the_round() {
    let mut analyzer = Analyzer::new();
    feed(
        &mut analyzer,
        &[
            (0, LOBBY),
            (1, "ECLIPTICA - now in stage: Stage_Bringer"),
            (2, "Dealing 40 STRIKE damage"),
            (3, "Boss JimBringerPhase2 dead, personal damage dealt:"),
        ],
    );
    let snapshot = analyzer.snapshot_at(timestamp(3));
    assert_eq!(snapshot.phase, RoundPhase::Combat);
    assert!(snapshot.round_report.is_none());
    assert!(snapshot.has_damage_data);
}

#[test]
fn tracks_effective_dps_ten_second_burst_and_total_damage_taken() {
    let mut analyzer = Analyzer::new();
    feed(&mut analyzer, &[(0, ENTER), (1, LOBBY), (2, STAGE), (5, "Dealing 30 STRIKE damage")]);
    assert_eq!(value(analyzer.snapshot_at(timestamp(5)).round_effective_dps), 30.0);
    feed(
        &mut analyzer,
        &[
            (6, "Dealing 30 NON-STRIKE damage"),
            (7, "damage has been taken: 20, from source: projectile1"),
            (12, "Dealing 40 STRIKE damage"),
            (14, "damage has been taken: 35, from source: Boss"),
        ],
    );

    let snapshot = analyzer.snapshot_at(timestamp(16));
    assert!((value(snapshot.round_effective_dps) - 100.0 / 7.0).abs() < f64::EPSILON);
    assert_eq!(snapshot.round_burst_10s_dps.map(value), Some(10.0));
    assert_eq!(snapshot.round_damage_taken, 55);

    feed(&mut analyzer, &[(16, LOBBY)]);
    let report = analyzer
        .snapshot_at(timestamp(17))
        .round_report
        .expect("completed round should be archived");
    assert!((value(report.effective_dps) - 100.0 / 7.0).abs() < f64::EPSILON);
    assert_eq!(report.burst_10s_dps.map(value), Some(10.0));
    assert_eq!(report.damage_taken, 55);
}

#[test]
fn consecutive_completed_rounds_publish_growth_only_after_a_comparable_previous_round() {
    let mut analyzer = Analyzer::new();
    analyzer.process_line(&timeline_line(0, "[Behaviour] Entering Room: Ecliptica"), None);
    analyzer.process_line(&timeline_line(1, LOBBY), None);
    analyzer.process_line(&timeline_line(2, "ECLIPTICA - now in stage: Stage_One"), None);
    for second in 3..13 {
        analyzer.process_line(&timeline_line(second, "Dealing 10 STRIKE damage"), None);
    }
    analyzer.process_line(&timeline_line(13, LOBBY), None);
    let first = analyzer.snapshot_at(timeline_timestamp(13));
    assert!(first.round_report.unwrap().previous_effective_dps.is_none());

    analyzer.process_line(&timeline_line(20, "ECLIPTICA - now in stage: Stage_Two"), None);
    for second in 21..31 {
        analyzer.process_line(&timeline_line(second, "Dealing 20 STRIKE damage"), None);
    }
    analyzer.process_line(&timeline_line(31, LOBBY), None);
    let second = analyzer.snapshot_at(timeline_timestamp(31));
    let report = second.round_report.unwrap();
    let previous = value(report.previous_effective_dps.unwrap());
    let growth = (value(report.effective_dps) - previous) / previous * 100.0;
    assert_eq!(growth, 100.0);
}

#[test]
fn visit_dps_history_includes_zero_seconds_and_survives_leave_until_next_entry() {
    let mut analyzer = Analyzer::new();
    feed(
        &mut analyzer,
        &[
            (0, "[Behaviour] Entering Room: Ecliptica"),
            (1, LOBBY),
            (2, STAGE),
            (3, "Dealing 42 STRIKE damage"),
        ],
    );
    let point = |elapsed_seconds, dps, combat_round_epoch| DpsHistoryPoint {
        elapsed_seconds,
        dps,
        combat_round_epoch,
        estimated_step: None,
    };

    let live = analyzer.snapshot_at(timestamp(5));
    assert_eq!(
        live.dps_history,
        vec![point(0, 0, 0), point(1, 0, 0), point(2, 0, 1), point(3, 42, 1), point(4, 0, 1)]
    );

    feed(&mut analyzer, &[(6, "[Behaviour] OnLeftRoom")]);
    let left = analyzer.snapshot_at(timestamp(7));
    assert!(!left.in_ecliptica);
    assert_eq!(left.dps_history.last().unwrap().elapsed_seconds, 6);

    feed(&mut analyzer, &[(8, "[Behaviour] Entering Room: Ecliptica")]);
    let new_visit = analyzer.snapshot_at(timestamp(9));
    assert_eq!(new_visit.dps_history, vec![point(0, 0, 0)]);
}

#[test]
fn ten_second_burst_waits_for_a_complete_window() {
    let mut analyzer = Analyzer::new();
    feed(&mut analyzer, &[(0, ENTER), (1, LOBBY), (2, STAGE), (5, "Dealing 100 STRIKE damage")]);
    assert_eq!(analyzer.snapshot_at(timestamp(14)).round_burst_10s_dps, None);
    assert_eq!(analyzer.snapshot_at(timestamp(15)).round_burst_10s_dps.map(value), Some(10.0));
}

#[test]
fn empty_lobby_marker_does_not_create_a_report() {
    let mut analyzer = Analyzer::new();
    feed(&mut analyzer, &[(0, ENTER), (2, LOBBY)]);
    assert!(analyzer.snapshot_at(i64::MAX).round_report.is_none());
}

#[test]
fn incoming_only_round_still_archives_damage_taken() {
    let mut analyzer = Analyzer::new();
    feed(
        &mut analyzer,
        &[
            (0, ENTER),
            (1, LOBBY),
            (2, STAGE),
            (5, "damage has been taken: 23, from source: Boss"),
            (8, LOBBY),
        ],
    );
    let report = analyzer
        .snapshot_at(timestamp(9))
        .round_report
        .expect("incoming damage should produce a round report");
    assert_eq!(report.total_damage, 0);
    assert_eq!(value(report.effective_dps), 0.0);
    assert_eq!(report.burst_10s_dps, None);
    assert_eq!(report.damage_taken, 23);
}

#[test]
fn joining_an_active_stage_waits_for_an_explicit_round_boundary() {
    let mut analyzer = Analyzer::new();
    feed(&mut analyzer, &[(0, "[Behaviour] Entering Room: Ecliptica - Active Instance")]);
    assert_eq!(analyzer.snapshot_at(timestamp(0)).phase, RoundPhase::Syncing);

    feed(&mut analyzer, &[(1, "ECLIPTICA - now in stage: Stage_Active")]);
    let snapshot = analyzer.snapshot_at(i64::MAX);
    assert_eq!(snapshot.phase, RoundPhase::Combat);
    assert!(!snapshot.round_metrics_active);

    feed(
        &mut analyzer,
        &[(8, "Dealing 999 STRIKE damage"), (9, "damage has been taken: 4, from source: Boss")],
    );
    let snapshot = analyzer.snapshot_at(i64::MAX);
    assert!(!snapshot.round_metrics_active);
    assert!(!snapshot.has_damage_data);

    feed(&mut analyzer, &[(10, LOBBY)]);
    let snapshot = analyzer.snapshot_at(i64::MAX);
    assert_eq!(snapshot.phase, RoundPhase::Lobby);
    assert!(!snapshot.round_metrics_active);
    assert!(snapshot.round_report.is_none());

    feed(
        &mut analyzer,
        &[(12, "ECLIPTICA - now in stage: Stage_Next"), (15, "Dealing 30 STRIKE damage")],
    );
    let snapshot = analyzer.snapshot_at(timestamp(0) + 16);
    assert!(snapshot.round_metrics_active);
    assert_eq!(snapshot.latest_dps, 30);
}

#[test]
fn a_quiet_new_room_remains_syncing_without_an_explicit_phase_signal() {
    let mut analyzer = Analyzer::new();
    feed(&mut analyzer, &[(0, "[Behaviour] Entering Room: Ecliptica - Waiting Instance")]);
    assert_eq!(analyzer.snapshot_at(timestamp(11)).phase, RoundPhase::Syncing);

    let unknown = analyzer.snapshot_at(timeline_timestamp(120));
    assert_eq!(unknown.phase, RoundPhase::Syncing);
    assert!(!unknown.round_metrics_active);
    assert!(unknown.round_report.is_none());

    feed(
        &mut analyzer,
        &[(30, "ECLIPTICA - now in stage: Stage_First"), (35, "Dealing 25 STRIKE damage")],
    );
    let playing = analyzer.snapshot_at(timestamp(36));
    assert_eq!(playing.phase, RoundPhase::Combat);
    assert!(!playing.round_metrics_active);
    assert_eq!(playing.latest_dps, 0);
}

#[test]
fn first_boss_exposes_world_combat_without_claiming_local_participation() {
    let mut analyzer = Analyzer::new();
    feed(&mut analyzer, &[(0, "[Behaviour] Entering Room: Ecliptica - Waiting Instance")]);
    assert_eq!(analyzer.snapshot_at(timestamp(12)).phase, RoundPhase::Syncing);

    feed(
        &mut analyzer,
        &[
            (13, "ECLIPTICA - now fighting boss: Maxipuss(Clone) on phase: 1"),
            (13, "ownership of Maxipuss transferred to Player One"),
        ],
    );
    let combat = analyzer.snapshot_at(timestamp(13));
    assert_eq!(combat.phase, RoundPhase::Combat);
    assert_eq!(combat.boss.as_deref(), Some("Maxipuss"));
    assert_eq!(combat.boss_lock.as_deref(), Some("Player One"));
    assert!(!combat.round_metrics_active);
    assert!(combat.round_report.is_none());
}

#[test]
fn explicit_lobby_still_ignores_training_boss_noise() {
    let mut analyzer = Analyzer::new();
    feed(
        &mut analyzer,
        &[
            (0, "[Behaviour] Entering Room: Ecliptica - Waiting Instance"),
            (1, "ECLIPTICA - now in lobby"),
            (20, "ECLIPTICA - now fighting boss: Maxipuss(Clone) on phase: 1"),
            (20, "ownership of Maxipuss transferred to Player One"),
        ],
    );
    let lobby = analyzer.snapshot_at(timestamp(20));
    assert_eq!(lobby.phase, RoundPhase::Lobby);
    assert!(lobby.boss.is_none());
    assert!(lobby.boss_lock.is_none());
}

#[test]
fn missing_intermission_drops_incomplete_round_and_reports_degradation() {
    let mut analyzer = Analyzer::new();
    feed(
        &mut analyzer,
        &[
            (0, "[Behaviour] Entering Room: Ecliptica"),
            (1, LOBBY),
            (2, "ECLIPTICA - now in stage: Stage_First"),
            (5, "Dealing 40 STRIKE damage"),
            (10, "ECLIPTICA - now in stage: Stage_Second"),
        ],
    );
    let snapshot = analyzer.snapshot_at(timestamp(11));
    assert_eq!(snapshot.phase, RoundPhase::Combat);
    assert!(snapshot.round_report.is_none());
    assert!(!snapshot.has_damage_data);
    assert!(snapshot.data_quality.degraded);
    assert!(snapshot
        .data_quality
        .issues
        .iter()
        .any(|issue| issue.code == DiagnosticCode::IntermissionMissing
            && issue.code.label() == "intermission_missing"));
}

#[test]
fn joining_in_lobby_starts_alive_and_room_changes_clear_everything() {
    let mut analyzer = Analyzer::new();
    feed(
        &mut analyzer,
        &[
            (0, "[Behaviour] Entering Room: Ecliptica - First Instance"),
            (1, LOBBY),
            (2, "ECLIPTICA - now in stage: Stage_First"),
            (5, "Dealing 40 STRIKE damage"),
            (6, "ECLIPTICA - now fighting boss: Maxipuss(Clone) on phase: 1"),
            (7, "ownership of Maxipuss transferred to Old Player"),
            (10, LOBBY),
        ],
    );
    let old = analyzer.snapshot_at(i64::MAX);
    assert!(old.round_report.is_some());
    assert_eq!(old.max_dps, 40);

    feed(&mut analyzer, &[(15, "[Behaviour] OnLeftRoom")]);
    let outside = analyzer.snapshot_at(i64::MAX);
    assert_eq!(outside.phase, RoundPhase::Outside);
    assert!(!outside.in_ecliptica);
    assert_eq!(outside.max_dps, 0);
    assert!(outside.round_report.is_none());
    assert!(outside.boss_lock.is_none());

    feed(&mut analyzer, &[(20, "[Behaviour] Entering Room: Ecliptica - New Instance")]);
    let syncing = analyzer.snapshot_at(timestamp(20));
    assert_eq!(syncing.phase, RoundPhase::Syncing);
    assert_eq!(syncing.max_dps, 0);
    assert!(syncing.round_report.is_none());

    feed(&mut analyzer, &[(21, "ECLIPTICA - now in stage: Stage_AlreadyActive")]);
    let new_room = analyzer.snapshot_at(i64::MAX);
    assert!(!new_room.round_metrics_active);
    assert_eq!(new_room.max_dps, 0);
}

#[test]
fn a_new_ecliptica_entry_clears_active_state_even_without_leave_event() {
    let mut analyzer = Analyzer::new();
    feed(
        &mut analyzer,
        &[
            (0, LOBBY),
            (1, "ECLIPTICA - now in stage: Stage_Old"),
            (5, "Dealing 75 STRIKE damage"),
            (6, "ECLIPTICA - now fighting boss: Maxipuss(Clone) on phase: 1"),
            (7, "ownership of Maxipuss transferred to Old Player"),
        ],
    );
    let old_room = analyzer.snapshot_at(i64::MAX);
    assert_eq!(old_room.boss_lock.as_deref(), Some("Old Player"));
    assert!(old_room.has_damage_data);

    feed(&mut analyzer, &[(20, "[Behaviour] Entering Room: Ecliptica - Replacement Instance")]);
    let replacement = analyzer.snapshot_at(timestamp(20));
    assert_eq!(replacement.phase, RoundPhase::Syncing);
    assert!(replacement.in_ecliptica);
    assert!(!replacement.round_metrics_active);
    assert!(!replacement.has_damage_data);
    assert_eq!(replacement.max_dps, 0);
    assert!(replacement.round_report.is_none());
    assert!(replacement.boss.is_none());
    assert!(replacement.boss_lock.is_none());
    assert!(!replacement.boss_active);
}

#[test]
fn max_dps_keeps_the_visit_peak_across_rounds_and_resets_on_leave() {
    let mut analyzer = Analyzer::new();
    feed(
        &mut analyzer,
        &[
            (0, ENTER),
            (1, LOBBY),
            (2, STAGE),
            (5, "Dealing 30 STRIKE damage"),
            (5, "Dealing 12 NON-STRIKE damage"),
            (7, LOBBY),
        ],
    );
    let base = timestamp(0);
    assert_eq!(analyzer.snapshot_at(base + 8).max_dps_text(), "42");
    feed(&mut analyzer, &[(9, "ECLIPTICA - now in stage: 2"), (10, "Dealing 60 STRIKE damage")]);
    assert_eq!(analyzer.snapshot_at(base + 11).max_dps, 60);

    feed(
        &mut analyzer,
        &[
            (12, LOBBY),
            (14, "ECLIPTICA - now in stage: 3"),
            (15, "Dealing 25 STRIKE damage"),
            (17, LOBBY),
        ],
    );
    let snapshot = analyzer.snapshot_at(base + 18);
    assert_eq!(snapshot.max_dps, 60);
    assert_eq!(snapshot.round_report.unwrap().max_dps, 25);

    feed(&mut analyzer, &[(20, "[Behaviour] OnLeftRoom")]);
    assert_eq!(analyzer.snapshot_at(base + 21).max_dps_text(), "-");
}

#[test]
fn only_current_boss_ownership_updates_lock_and_intermission_clears_it() {
    let mut analyzer = Analyzer::new();
    feed(
        &mut analyzer,
        &[
            (0, "ECLIPTICA - now fighting boss: Maxipuss(Clone) on phase: 0.1"),
            (1, "ownership of Fly transferred to Nobody"),
        ],
    );
    assert_eq!(analyzer.snapshot_at(i64::MAX).boss_lock, None);
    feed(&mut analyzer, &[(2, "ownership of Maxipuss transferred to Player One")]);
    assert_eq!(analyzer.snapshot_at(i64::MAX).boss_lock.as_deref(), Some("Player One"));
    feed(&mut analyzer, &[(3, LOBBY)]);
    assert!(!analyzer.snapshot_at(i64::MAX).boss_active);
}

#[test]
fn boss_death_and_lobby_clear_lock_and_statistics() {
    let mut analyzer = Analyzer::new();
    feed(
        &mut analyzer,
        &[
            (0, "ECLIPTICA - now fighting boss: JimBringerPhase3(Clone) on phase: 1"),
            (1, "ownership of JimBringerPhase3 transferred to Alice"),
            (2, "Boss JimBringerPhase3 dead, personal damage dealt:"),
        ],
    );
    assert_eq!(analyzer.snapshot_at(i64::MAX).boss_lock, None);
    feed(&mut analyzer, &[(3, "ECLIPTICA - now in lobby")]);
    let snapshot = analyzer.snapshot_at(i64::MAX);
    assert_eq!(snapshot.latest_dps, 0);
    assert!(!snapshot.boss_active);
}

#[test]
fn reset_all_returns_to_the_initial_snapshot() {
    let mut analyzer = Analyzer::new();
    feed(&mut analyzer, &[(0, ENTER), (1, LOBBY), (2, STAGE), (3, "Dealing 5 STRIKE damage")]);
    analyzer.reset_all();
    let snapshot = analyzer.snapshot_at(timestamp(4));
    assert_eq!(snapshot.phase, RoundPhase::Outside);
    assert!(!snapshot.in_ecliptica);
    assert!(!snapshot.has_damage_data);
    assert!(snapshot.dps_history.is_empty());
}

#[test]
fn repeated_snapshots_extend_the_history_one_point_per_second() {
    let mut analyzer = Analyzer::new();
    feed(&mut analyzer, &[(0, ENTER)]);
    let none_yet = analyzer.snapshot_at(timestamp(0));
    assert!(none_yet.dps_history.is_empty());
    let early = analyzer.snapshot_at(timestamp(3));
    let same = analyzer.snapshot_at(timestamp(3));
    let later = analyzer.snapshot_at(timestamp(8));
    let elapsed = |points: &[DpsHistoryPoint]| points.iter().map(|p| p.elapsed_seconds).collect::<Vec<u64>>();
    assert_eq!(elapsed(&early.dps_history), vec![0, 1, 2]);
    assert_eq!(same.dps_history, early.dps_history);
    assert_eq!(elapsed(&later.dps_history), vec![0, 1, 2, 3, 4, 5, 6, 7]);
    assert_eq!(&later.dps_history[..3], &early.dps_history[..]);
}

#[test]
fn snapshots_accept_the_earliest_representable_second() {
    let mut analyzer = Analyzer::new();
    feed(&mut analyzer, &[(0, ENTER), (1, LOBBY), (2, STAGE), (3, "Dealing 42 STRIKE damage")]);
    let early = analyzer.snapshot_at(i64::MIN);
    assert_eq!(early.phase, RoundPhase::Combat);
    assert_eq!(early.dps_history.len(), 2);
    let fresh = Analyzer::new().snapshot_at(i64::MIN + 1);
    assert_eq!(fresh.phase, RoundPhase::Outside);
}
