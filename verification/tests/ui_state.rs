use ecliptica_data_analyzer::analysis::{GameSnapshot, Ratio, RoundPhase, RoundReport};
use ecliptica_data_analyzer::config::AppConfig;
use ecliptica_data_analyzer::osc::{render_configured_message, DecimalTexts};
use ecliptica_data_analyzer::i18n::Language;
use ecliptica_data_analyzer::runtime::EventLevel;
use ecliptica_data_analyzer::ui_state::{
    apply_language_managed_fields, is_protocol_diagnostic, message_template_draft_changed,
    preset_display_name, preset_tab_labels, push_log_row, register_hidden_click,
    preview_snapshot_for_state, report_template_draft_changed, short_text, DpsChartViewState, LogRow,
    TemplatePreviewState,
    DPS_CHART_AUTO_FIT_IDLE_MS, DPS_CHART_AUTO_FIT_INTERVAL_MS, MAX_LOG_ROWS,
};

const START: u64 = 2_000_000;

#[test]
fn each_developer_mode_toggle_requires_five_timely_logo_clicks() {
    let start = START;
    let mut clicks = 0;
    let mut last_click = None;
    for index in 0..4u64 {
        assert!(!register_hidden_click(&mut clicks, &mut last_click, start + index * 300));
    }
    assert!(register_hidden_click(&mut clicks, &mut last_click, start + 1_200));

    for index in 1..=5u64 {
        let toggled = register_hidden_click(&mut clicks, &mut last_click, start + 1_200 + index * 300);
        assert_eq!(toggled, index == 5);
    }

    assert!(!register_hidden_click(&mut clicks, &mut last_click, start + 10_000));
    assert_eq!(clicks, 1, "timed-out click sequence must restart");
}

#[test]
fn chart_auto_fit_waits_after_user_input_and_between_adjustments() {
    let start = START;
    let mut view = DpsChartViewState::default();
    assert!(view.should_auto_fit(start));
    view.record_auto_fit(start);
    assert!(!view.should_auto_fit(start + 4_000));
    assert!(view.should_auto_fit(start + DPS_CHART_AUTO_FIT_INTERVAL_MS));

    let interaction = start + 6_000;
    view.record_user_interaction(interaction);
    assert!(!view.should_auto_fit(interaction + 4_000));
    assert!(view.should_auto_fit(interaction + DPS_CHART_AUTO_FIT_IDLE_MS));

    let resumed = interaction + DPS_CHART_AUTO_FIT_IDLE_MS;
    view.record_auto_fit(resumed);
    assert!(!view.should_auto_fit(resumed + 4_000));
    assert!(view.should_auto_fit(resumed + DPS_CHART_AUTO_FIT_INTERVAL_MS));
}

#[test]
fn short_text_cuts_with_an_ellipsis() {
    assert_eq!(short_text("abcdef", 3), "abc…");
    assert_eq!(short_text("abc", 3), "abc");
    assert_eq!(short_text("伤害统计", 2), "伤害…");
}

#[test]
fn repeated_log_rows_are_counted_and_the_log_is_bounded() {
    let mut logs: Vec<LogRow> = Vec::new();
    push_log_row(&mut logs, EventLevel::Info, "started".to_owned(), "00:00:01".to_owned());
    push_log_row(&mut logs, EventLevel::Info, "started".to_owned(), "00:00:02".to_owned());
    assert_eq!(logs.len(), 1);
    assert_eq!(logs[0].repeats, 2);
    assert_eq!(logs[0].time, "00:00:01");
    push_log_row(&mut logs, EventLevel::Warning, "started".to_owned(), "00:00:03".to_owned());
    assert_eq!(logs.len(), 2);
    for index in 0..MAX_LOG_ROWS {
        push_log_row(&mut logs, EventLevel::Info, format!("event {index}"), "00:01:00".to_owned());
    }
    assert_eq!(logs.len(), MAX_LOG_ROWS);
    assert_eq!(logs[0].message, "event 0");
    assert_eq!(logs[MAX_LOG_ROWS - 1].message, format!("event {}", MAX_LOG_ROWS - 1));
}

#[test]
fn template_draft_state_tracks_content_and_preset_changes() {
    let applied = AppConfig::defaults_for_language(Language::English);
    let draft = AppConfig::defaults_for_language(Language::English);
    assert!(!message_template_draft_changed(&draft, &applied));
    assert!(!report_template_draft_changed(&draft, &applied));

    let mut edited = AppConfig::defaults_for_language(Language::English);
    edited.message_template.push('!');
    assert!(message_template_draft_changed(&edited, &applied));
    assert!(!report_template_draft_changed(&edited, &applied));

    let mut renamed = AppConfig::defaults_for_language(Language::English);
    renamed.round_report_template_preset_names[1] = "Mine".to_owned();
    assert!(report_template_draft_changed(&renamed, &applied));
    assert!(!message_template_draft_changed(&renamed, &applied));
}

#[test]
fn preset_tabs_use_names_with_safe_empty_and_long_fallbacks() {
    let labels = preset_tab_labels(
        &["日常".to_owned(), "  ".to_owned(), "这是一个非常非常非常长的预设名称".to_owned()],
        Language::Chinese,
    );
    assert_eq!(labels[0], "日常");
    assert_eq!(labels[1], "预设 2");
    assert!(labels[2].ends_with('…'));
    assert_eq!(preset_display_name("  Boss  ", 0, Language::English), "Boss");
    assert_eq!(preset_display_name("", 2, Language::English), "Preset 3");
}

#[test]
fn only_protocol_miss_events_are_treated_as_developer_logs() {
    assert!(is_protocol_diagnostic("日志协议兼容性降级 [damage]: 格式已变化"));
    assert!(is_protocol_diagnostic("Log protocol compatibility degraded [boss]: changed"));
    assert!(!is_protocol_diagnostic("日志读取发生错误，OSC 已暂停"));
    assert!(!is_protocol_diagnostic("未找到 VRChat 日志，将继续重试"));
}

#[test]
fn applying_language_fields_does_not_touch_unrelated_live_settings() {
    let mut live = AppConfig::defaults_for_language(Language::Chinese);
    live.display_name = "Alice".to_owned();
    live.stale_after_seconds = 42;
    let localized = live.with_localized_defaults(Language::English);

    assert!(apply_language_managed_fields(&mut live, &localized));
    assert_eq!(live.language, Language::English);
    assert_eq!(live.display_name, "Alice");
    assert_eq!(live.stale_after_seconds, 42);
    assert_eq!(live.message_template, AppConfig::defaults_for_language(Language::English).message_template);
    assert!(!apply_language_managed_fields(&mut live, &localized));
}

#[test]
fn language_only_update_preserves_every_other_committed_setting() {
    let committed = AppConfig {
        display_name: "Committed name".to_owned(),
        osc_address: "192.0.2.1:9000".to_owned(),
        ..AppConfig::defaults_for_language(Language::Chinese)
    };
    let updated = committed.with_localized_defaults(Language::English);
    assert_eq!(updated.language, Language::English);
    assert_eq!(updated.display_name, committed.display_name);
    assert_eq!(updated.osc_address, committed.osc_address);
    assert_eq!(updated.send_interval, committed.send_interval);
}

fn plain_decimals() -> DecimalTexts {
    DecimalTexts {
        average_dps: "0.0".to_owned(),
        round_average_dps: "0.0".to_owned(),
        round_effective_dps: "0.0".to_owned(),
        round_burst_10s_dps: "-".to_owned(),
        report_average_dps: "0.0".to_owned(),
        report_effective_dps: "0.0".to_owned(),
        report_burst_10s_dps: "-".to_owned(),
        report_growth_rate: "0".to_owned(),
    }
}

#[test]
fn live_preview_forces_no_wasd_false_without_mutating_runtime_snapshot() {
    let runtime_snapshot = GameSnapshot { no_wasd_for_10s: true, ..GameSnapshot::default() };
    let preview = preview_snapshot_for_state(&runtime_snapshot, TemplatePreviewState::Normal);
    assert!(!preview.no_wasd_for_10s);
    assert!(runtime_snapshot.no_wasd_for_10s);
}

#[test]
fn live_preview_tabs_select_distinct_simulated_template_contexts() {
    let runtime_snapshot = GameSnapshot {
        phase: RoundPhase::Combat,
        round_report: Some(RoundReport {
            has_duration_data: true,
            has_output_data: true,
            duration_seconds: 10,
            total_damage: 999,
            average_dps: Ratio { numerator: 10, denominator: 1 },
            max_dps: 20,
            effective_dps: Ratio { numerator: 12, denominator: 1 },
            burst_10s_dps: Some(Ratio { numerator: 15, denominator: 1 }),
            previous_effective_dps: None,
            damage_taken: 2,
            has_longest_standstill_data: true,
            longest_standstill_seconds: 3,
        }),
        ..GameSnapshot::default()
    };
    let config = AppConfig {
        message_template: "COMBAT {{latest_dps}}".to_owned(),
        round_report_template: "REPORT {{round_total_damage}}".to_owned(),
        ..AppConfig::defaults_for_language(Language::Chinese)
    };

    let normal = preview_snapshot_for_state(&runtime_snapshot, TemplatePreviewState::Normal);
    let report = preview_snapshot_for_state(&runtime_snapshot, TemplatePreviewState::RoundReport);

    assert_eq!(normal.phase, RoundPhase::Combat);
    assert!(normal.round_metrics_active);
    assert!(normal.round_report.is_none());
    assert_eq!(report.phase, RoundPhase::Lobby);
    assert!(report.round_report.is_some());
    assert_eq!(render_configured_message(&config, &normal, &plain_decimals()).unwrap(), "COMBAT 128");
    assert_eq!(render_configured_message(&config, &report, &plain_decimals()).unwrap(), "REPORT 999");
}

#[test]
fn report_preview_without_an_archive_shows_the_example_round() {
    let preview = preview_snapshot_for_state(&GameSnapshot::default(), TemplatePreviewState::RoundReport);
    let report = preview.round_report.unwrap();
    assert_eq!(report.total_damage, 12_480);
    assert_eq!(report.longest_standstill_text(), "74");
    assert!(preview.has_step_estimate);
    assert_eq!((preview.current_step, preview.until_boss_step), (10, 1));
}
