use ecliptica_data_analyzer::log_protocol::{
    earliest_second, estimator_step, DiagnosticCode, EstimatorStep, LogParser, ParsedEvent,
};

#[test]
fn malformed_known_lines_are_diagnostics_not_panics() {
    let parser = LogParser::default();
    let malformed = [
        "future timestamp Dealing lots STRIKE damage",
        "2026.08.12 12:00:00 Debug - damage has been taken: many",
        "2026.08.12 12:00:00 Debug - ECLIPTICA - now fighting boss: changed",
        "2026.08.12 12:00:00 Debug - ownership of Boss transferred to",
    ];
    for line in malformed {
        let parsed = parser.parse(line);
        assert!(parsed.event.is_none());
        assert!(parsed.diagnostic.is_some());
    }
}

#[test]
fn entering_another_room_closes_stale_ecliptica_state() {
    let parsed =
        LogParser::default().parse("2026.08.12 12:00:00 Debug - [Behaviour] Entering Room: Another World");
    assert!(matches!(parsed.event, Some(ParsedEvent::LeaveRoom { .. })));
}

#[test]
fn boss_defeat_keeps_its_timestamp_for_round_boundaries() {
    let parsed = LogParser::default()
        .parse("2026.08.12 07:49:28 Debug - Boss JimBringerPhase3 dead, personal damage dealt:");
    assert!(matches!(
        parsed.event,
        Some(ParsedEvent::BossDefeated { name, .. }) if name == "JimBringerPhase3"
    ));
}

#[test]
fn damage_lines_carry_their_amounts() {
    let parser = LogParser::default();
    let dealt = parser.parse("2026.08.12 12:00:00 Debug      -  Dealing 30 STRIKE damage");
    assert!(matches!(dealt.event, Some(ParsedEvent::Damage { amount: 30, .. })));
    let taken =
        parser.parse("2026.08.12 12:00:00 Debug      -  damage has been taken: 23, from source: Boss");
    assert!(matches!(taken.event, Some(ParsedEvent::DamageTaken { amount: 23, .. })));
    let unrelated = parser.parse("2026.08.12 12:00:00 Debug      -  nothing to see here");
    assert!(unrelated.event.is_none());
    assert!(unrelated.diagnostic.is_none());
}

#[test]
fn ownership_and_stage_phase_are_extracted() {
    let parser = LogParser::default();
    let owner = parser.parse("2026.08.12 12:00:00 Debug - ownership of Maxipuss transferred to Player One");
    assert!(matches!(
        owner.event,
        Some(ParsedEvent::Ownership { object, player }) if object == "Maxipuss" && player == "Player One"
    ));
    let stage = parser.parse(
        "2026.08.12 12:00:00 Debug - ECLIPTICA - now in stage: Stage_Bringer on phase: 0.5 as class: Twinmage",
    );
    assert!(matches!(stage.event, Some(ParsedEvent::Stage { phase: Some(p), .. }) if p == "0.5"));
}

#[test]
fn diagnostic_codes_have_stable_labels() {
    assert_eq!(DiagnosticCode::IntermissionMissing.label(), "intermission_missing");
    assert_eq!(DiagnosticCode::Boss.label(), "boss");
}

#[test]
fn an_ambiguous_local_time_stands_for_its_earlier_second() {
    assert_eq!(earliest_second(Some((100, None))), Some(100));
    assert_eq!(earliest_second(Some((100, Some(3_700)))), Some(100));
    assert_eq!(earliest_second(Some((3_700, Some(100)))), Some(100));
    assert_eq!(earliest_second(None), None);
}

#[test]
fn the_estimator_follows_room_and_stage_events() {
    let parser = LogParser::default();
    let step = |line: &str| estimator_step(&parser.parse(line));
    assert_eq!(step("2026.08.12 12:00:00 Debug - [Behaviour] Entering Room: Ecliptica"), EstimatorStep::Reset);
    assert_eq!(step("2026.08.12 12:00:00 Debug - [Behaviour] OnLeftRoom"), EstimatorStep::Reset);
    assert_eq!(step("2026.08.12 12:00:00 Debug - ECLIPTICA - now in stage: Stage_A"), EstimatorStep::ObserveStage);
    assert_eq!(step("2026.08.12 12:00:00 Debug - ECLIPTICA - now in intermission"), EstimatorStep::Estimate);
    assert_eq!(step("2026.08.12 12:00:00 Debug - Dealing 3 STRIKE damage"), EstimatorStep::Keep);
}
