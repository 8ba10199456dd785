use ecliptica_data_analyzer::analysis::{GameSnapshot, Ratio, RoundPhase, RoundReport};
use ecliptica_data_analyzer::config::{AppConfig, DEFAULT_TEMPLATE};
use ecliptica_data_analyzer::i18n::Language;
use ecliptica_data_analyzer::osc::{
    broadcast_context, chatbox_packet, render_configured_message, render_message, selected_template,
    BroadcastContext, ChatboxUpdate, DecimalTexts, RenderFailure, SendPriority, SendQueue,
};

fn one(r: Ratio) -> String {
    if r.denominator == 0 {
        "0.0".to_owned()
    } else {
        format!("{:.1}", r.numerator as f64 / r.denominator as f64)
    }
}

fn decimals(s: &GameSnapshot) -> DecimalTexts {
    let report = s.round_report;
    DecimalTexts {
        average_dps: one(s.average_dps),
        round_average_dps: one(s.round_average_dps),
        round_effective_dps: one(s.round_effective_dps),
        round_burst_10s_dps: s.round_burst_10s_dps.map(one).unwrap_or_else(|| "-".to_owned()),
        report_average_dps: report.map(|r| one(r.average_dps)).unwrap_or_default(),
        report_effective_dps: report.map(|r| one(r.effective_dps)).unwrap_or_default(),
        report_burst_10s_dps: report.and_then(|r| r.burst_10s_dps).map(one).unwrap_or_default(),
        report_growth_rate: report
            .and_then(|r| {
                r.previous_effective_dps.map(|previous| {
                    let p = previous.numerator as f64 / previous.denominator as f64;
                    let e = r.effective_dps.numerator as f64 / r.effective_dps.denominator as f64;
                    format!("{:.1}", (e - p) / p * 100.0)
                })
            })
            .unwrap_or_default(),
    }
}

fn render(template: &str, snapshot: &GameSnapshot) -> Result<String, RenderFailure> {
    render_message(template, snapshot, &decimals(snapshot))
}

fn ratio(numerator: u64, denominator: u64) -> Ratio {
    Ratio { numerator, denominator }
}

#[test]
fn renders_supported_variables_and_preserves_newlines() {
    let snapshot = GameSnapshot {
        latest_dps: 123,
        average_dps: ratio(4567, 100),
        round_effective_dps: ratio(5432, 100),
        round_burst_10s_dps: Some(ratio(789, 10)),
        round_damage_taken: 16,
        max_dps: 321,
        has_damage_data: true,
        has_max_dps_data: true,
        boss_lock: Some("Alice".to_owned()),
        ..GameSnapshot::default()
    };
    assert_eq!(
        render(
            "{{latest_dps}}\n{{avg_dps}}\n{{round_avg_dps}}\n{{round_effective_dps}}\n{{round_burst_10s}}\n{{round_damage_taken}}\n{{max_dps}}\n{{boss_lock}}",
            &snapshot,
        )
        .unwrap(),
        "123\n45.7\n0.0\n54.3\n78.9\n16\n321\nAlice"
    );
}

#[test]
fn renders_dashes_before_any_damage_data_arrives() {
    let snapshot = GameSnapshot::default();
    assert_eq!(
        render("DPS: {{latest_dps}} / AVG: {{avg_dps}} / ROUND: {{round_avg_dps}}", &snapshot).unwrap(),
        "DPS: - / AVG: - / ROUND: -"
    );
}

#[test]
fn conditional_blocks_hide_unavailable_values_but_keep_real_zero() {
    let template = "{{#if has_latest_dps}}DPS: {{latest_dps}}{{/if}}\n{{#if boss_lock}}LOCK: {{boss_lock}}{{/if}}";
    assert_eq!(render(template, &GameSnapshot::default()).unwrap(), "");

    let snapshot = GameSnapshot { has_damage_data: true, latest_dps: 0, ..GameSnapshot::default() };
    assert_eq!(render(template, &snapshot).unwrap(), "DPS: 0");
}

#[test]
fn configured_player_lock_flag_requires_a_name_and_active_matching_boss_lock() {
    let template = "{{#if is_self_boss_locked}}LOCKED{{else}}SAFE{{/if}}";
    let snapshot = GameSnapshot {
        boss_active: true,
        boss_lock: Some("Ａlice".to_owned()),
        ..GameSnapshot::default()
    };
    let d = decimals(&snapshot);

    assert_eq!(render(template, &snapshot).unwrap(), "SAFE");

    let matching = AppConfig {
        display_name: "Alice".to_owned(),
        message_template: template.to_owned(),
        ..AppConfig::defaults_for_language(Language::Chinese)
    };
    assert_eq!(render_configured_message(&matching, &snapshot, &d).unwrap(), "LOCKED");

    let missing_name = AppConfig {
        display_name: "   ".to_owned(),
        message_template: template.to_owned(),
        ..AppConfig::defaults_for_language(Language::Chinese)
    };
    assert_eq!(render_configured_message(&missing_name, &snapshot, &d).unwrap(), "SAFE");
}

#[test]
fn rapid_damage_danger_is_available_to_message_templates() {
    let template = "{{#if rapid_damage_danger}}危险：快速掉血{{/if}}";
    assert_eq!(render(template, &GameSnapshot::default()).unwrap(), "");
    let snapshot = GameSnapshot { rapid_damage_danger: true, ..GameSnapshot::default() };
    assert_eq!(render(template, &snapshot).unwrap(), "危险：快速掉血");
}

#[test]
fn no_dps_for_10s_is_available_to_message_templates() {
    let template = "{{#if no_dps_for_10s}}10 秒无输出{{/if}}";
    assert_eq!(render(template, &GameSnapshot::default()).unwrap(), "");
    let snapshot = GameSnapshot { no_dps_for_10s: true, ..GameSnapshot::default() };
    assert_eq!(render(template, &snapshot).unwrap(), "10 秒无输出");
}

#[test]
fn wasd_idle_boolean_is_directly_available_to_templates() {
    let template = "{{#if no_wasd_for_10s}}IDLE{{else}}ACTIVE{{/if}}";
    assert_eq!(render(template, &GameSnapshot::default()).unwrap(), "ACTIVE");
    let idle = GameSnapshot { wasd_listener_available: true, no_wasd_for_10s: true, ..GameSnapshot::default() };
    assert_eq!(render(template, &idle).unwrap(), "IDLE");
}

#[test]
fn report_flags_distinguish_missing_output_and_incomplete_burst_windows() {
    let snapshot = GameSnapshot {
        round_report: Some(RoundReport {
            has_duration_data: true,
            has_output_data: false,
            duration_seconds: 20,
            total_damage: 0,
            average_dps: ratio(0, 1),
            max_dps: 0,
            effective_dps: ratio(0, 1),
            burst_10s_dps: None,
            previous_effective_dps: None,
            damage_taken: 23,
            has_longest_standstill_data: false,
            longest_standstill_seconds: 0,
        }),
        ..GameSnapshot::default()
    };
    let template = "{{#if has_round_duration}}duration={{round_duration}}{{/if}}|{{#if has_round_report_avg_dps}}{{round_report_avg_dps}}{{else}}no-average{{/if}}|{{#if has_round_max_dps}}max={{round_max_dps}}{{else}}no-max{{/if}}|{{#if has_round_report_effective_dps}}effective={{round_report_effective_dps}}{{else}}no-effective{{/if}}|{{#if has_round_report_burst_10s}}{{round_report_burst_10s}}{{else}}no-burst{{/if}}|taken={{round_report_damage_taken}}";

    assert_eq!(
        render(template, &snapshot).unwrap(),
        "duration=00:20|no-average|no-max|no-effective|no-burst|taken=23"
    );
}

#[test]
fn hidden_first_line_does_not_leave_a_leading_newline() {
    let template = "{{#if has_latest_dps}}DPS: {{latest_dps}}{{/if}}\n始终显示\n  保留内部缩进  ";
    assert_eq!(render(template, &GameSnapshot::default()).unwrap(), "始终显示\n  保留内部缩进");
}

#[test]
fn default_template_is_empty_without_data() {
    assert_eq!(render(DEFAULT_TEMPLATE, &GameSnapshot::default()).unwrap(), "");
}

#[test]
fn broken_templates_fail_to_render() {
    assert!(render("{{#if has_latest_dps}}", &GameSnapshot::default()).is_err());
}

#[test]
fn rate_limited_report_is_replaced_by_the_current_combat_message() {
    let config = AppConfig {
        message_template: "COMBAT".to_owned(),
        round_report_template: "REPORT".to_owned(),
        ..AppConfig::defaults_for_language(Language::Chinese)
    };
    let snapshot = GameSnapshot {
        phase: RoundPhase::Combat,
        combat_round_epoch: 5,
        round_report: Some(RoundReport {
            has_duration_data: true,
            has_output_data: true,
            duration_seconds: 60,
            total_damage: 100,
            average_dps: ratio(2, 1),
            max_dps: 10,
            effective_dps: ratio(4, 1),
            burst_10s_dps: Some(ratio(5, 1)),
            previous_effective_dps: None,
            damage_taken: 3,
            has_longest_standstill_data: false,
            longest_standstill_seconds: 0,
        }),
        ..GameSnapshot::default()
    };
    assert_eq!(broadcast_context(&snapshot), Some(BroadcastContext::Combat(5)));
    assert_eq!(render_configured_message(&config, &snapshot, &decimals(&snapshot)).unwrap(), "COMBAT");
}

#[test]
fn configured_message_switches_to_round_report_template() {
    let config = AppConfig {
        message_template: "NORMAL".to_owned(),
        round_report_template: "REPORT {{round_total_damage}}".to_owned(),
        ..AppConfig::defaults_for_language(Language::Chinese)
    };
    let snapshot = GameSnapshot {
        phase: RoundPhase::Lobby,
        round_report: Some(RoundReport {
            has_duration_data: true,
            has_output_data: true,
            duration_seconds: 30,
            total_damage: 42,
            average_dps: ratio(42, 30),
            max_dps: 42,
            effective_dps: ratio(42, 3),
            burst_10s_dps: None,
            previous_effective_dps: None,
            damage_taken: 0,
            has_longest_standstill_data: false,
            longest_standstill_seconds: 0,
        }),
        ..GameSnapshot::default()
    };
    assert_eq!(selected_template(&config, &snapshot), "REPORT {{round_total_damage}}");
    assert_eq!(render_configured_message(&config, &snapshot, &decimals(&snapshot)).unwrap(), "REPORT 42");
    assert_eq!(broadcast_context(&snapshot), Some(BroadcastContext::RoundReport(0)));
}

#[test]
fn queued_wasd_update_renders_the_latest_value_at_dispatch_time() {
    let config = AppConfig {
        message_template: "{{#if no_wasd_for_10s}}NO_WASD{{else}}WASD_ACTIVE{{/if}}".to_owned(),
        ..AppConfig::defaults_for_language(Language::Chinese)
    };
    let mut snapshot = GameSnapshot {
        phase: RoundPhase::Combat,
        combat_round_epoch: 5,
        wasd_listener_available: true,
        no_wasd_for_10s: true,
        ..GameSnapshot::default()
    };
    let mut queue = SendQueue::default();
    queue.enqueue(BroadcastContext::Combat(5), SendPriority::Regular);
    assert_eq!(render_configured_message(&config, &snapshot, &decimals(&snapshot)).unwrap(), "NO_WASD");

    snapshot.no_wasd_for_10s = false;
    queue.clear();
    queue.enqueue(BroadcastContext::Combat(5), SendPriority::StateChange);
    assert_eq!(render_configured_message(&config, &snapshot, &decimals(&snapshot)).unwrap(), "WASD_ACTIVE");
    assert_eq!(queue.pending().unwrap().priority, SendPriority::StateChange);
}

#[test]
fn chatbox_packets_carry_the_message() {
    let packet = chatbox_packet(&ChatboxUpdate::Message("hi".to_owned())).expect("a message is sent");
    // Address, padded to four bytes, then the type tags: a string, true (send
    // at once), false (no notification sound), then the string itself.
    assert!(packet.starts_with(b"/chatbox/input\0\0"));
    assert_eq!(&packet[16..24], b",sTF\0\0\0\0");
    assert_eq!(&packet[24..28], b"hi\0\0");
    assert_eq!(packet.len(), 28);
    assert_eq!(chatbox_packet(&ChatboxUpdate::SkipEmpty), None);
    assert_eq!(chatbox_packet(&ChatboxUpdate::Message("  \n ".to_owned())), None);
    let trimmed = chatbox_packet(&ChatboxUpdate::Message("  hi \n".to_owned())).unwrap();
    assert_eq!(trimmed, packet);
}

#[test]
fn chatbox_packets_pad_utf8_text_to_four_bytes() {
    // "é" is two UTF-8 bytes; "abcd" fills four bytes and still gets a
    // whole word of zeros after it.
    let accent = chatbox_packet(&ChatboxUpdate::Message("é".to_owned())).unwrap();
    assert_eq!(&accent[24..], &[0xC3, 0xA9, 0, 0][..]);
    let word = chatbox_packet(&ChatboxUpdate::Message("abcd".to_owned())).unwrap();
    assert_eq!(&word[24..], b"abcd\0\0\0\0");
}
