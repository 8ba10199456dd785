use ecliptica_data_analyzer::config::{
    migrate_average_variable_names, migrate_redundant_presence_flags, validate_template, AlertSoundStyle,
    AppConfig, SendInterval, CONFIG_VERSION, DEFAULT_ROUND_REPORT_TEMPLATE,
    DEFAULT_ROUND_REPORT_TEMPLATE_PRESET_2, DEFAULT_TEMPLATE, DEFAULT_TEMPLATE_ENGLISH,
    DEFAULT_TEMPLATE_PRESET_2, DEFAULT_TEMPLATE_PRESET_2_ENGLISH, MESSAGE_TEMPLATE_PRESET_COUNT,
    ROUND_REPORT_TEMPLATE_PRESET_COUNT, TEMPLATE_PRESET_NAME_MAX_CHARS, VERSION_10_DEFAULT_ROUND_REPORT_TEMPLATE,
    VERSION_13_DEFAULT_ROUND_REPORT_TEMPLATE, VERSION_13_DEFAULT_TEMPLATE,
    VERSION_15_DEFAULT_ROUND_REPORT_TEMPLATE, VERSION_15_DEFAULT_ROUND_REPORT_TEMPLATE_PRESET_2,
    VERSION_16_DEFAULT_TEMPLATE_ENGLISH, VERSION_16_DEFAULT_TEMPLATE_PRESET_2_ENGLISH,
    VERSION_17_DEFAULT_ROUND_REPORT_TEMPLATE_PRESET_2, VERSION_5_DEFAULT_ROUND_REPORT_TEMPLATE,
    VERSION_5_DEFAULT_TEMPLATE,
};
use ecliptica_data_analyzer::i18n::Language;

fn chinese() -> AppConfig {
    AppConfig::defaults_for_language(Language::Chinese)
}

fn same(values: &[String; 3], expected: [&str; 3]) -> bool {
    values.iter().zip(expected).all(|(value, wanted)| value == wanted)
}

fn validate(config: &AppConfig) -> Result<(), String> {
    config.validate(true, true, true).map_err(|error| error.to_string())
}

#[test]
fn one_point_five_second_send_interval_is_exact_and_persistent() {
    assert_eq!(SendInterval::OnePointFive.duration(), 1_500);
    assert_eq!(SendInterval::One.duration(), 1_000);
    assert_eq!(SendInterval::OnePointFive.seconds_label(), "1.5");
}

#[test]
fn alert_sound_styles_have_localized_labels() {
    assert_eq!(AlertSoundStyle::Crisp.display_label(Language::English), "Crisp");
    assert_eq!(AlertSoundStyle::Prominent.display_label(Language::Chinese), "强提醒");
    assert_eq!(
        AlertSoundStyle::all(),
        [AlertSoundStyle::Soft, AlertSoundStyle::Crisp, AlertSoundStyle::Prominent]
    );
}

#[test]
fn defaults_use_resource_presets_and_full_alert_volume() {
    let config = chinese();
    assert_eq!(config.message_template, DEFAULT_TEMPLATE);
    assert!(same(
        &config.message_template_presets,
        [DEFAULT_TEMPLATE, DEFAULT_TEMPLATE_PRESET_2, DEFAULT_TEMPLATE]
    ));
    assert!(same(
        &config.round_report_template_presets,
        [DEFAULT_ROUND_REPORT_TEMPLATE, DEFAULT_ROUND_REPORT_TEMPLATE_PRESET_2, DEFAULT_ROUND_REPORT_TEMPLATE]
    ));
    assert_eq!(config.version, CONFIG_VERSION);
    assert!(!config.heart_rate_enabled);
}

#[test]
fn resetting_selected_message_preset_preserves_everything_else() {
    let mut config = AppConfig::defaults_for_language(Language::English);
    config.select_message_template_preset(1);
    config.message_template = "unsaved message draft".to_owned();
    config.message_template_preset_names[1] = "My message".to_owned();
    config.message_template_presets[0] = "other message".to_owned();
    config.round_report_template = "report draft".to_owned();
    config.round_report_template_presets[0] = "other report".to_owned();
    let names_before = config.message_template_preset_names.clone();
    let reports_before = config.round_report_template_presets.clone();
    let report_draft_before = config.round_report_template.clone();

    assert!(config.reset_active_message_template_to_default());
    assert_eq!(config.message_template, DEFAULT_TEMPLATE_PRESET_2_ENGLISH);
    assert_eq!(config.message_template_presets[1], config.message_template);
    assert_eq!(config.message_template_presets[0], "other message");
    assert_eq!(config.message_template_preset_names, names_before);
    assert_eq!(config.round_report_template_presets, reports_before);
    assert_eq!(config.round_report_template, report_draft_before);
    assert_eq!(config.active_message_template_preset, 1);
}

#[test]
fn resetting_selected_report_preset_uses_current_language() {
    let mut config = chinese();
    config.select_round_report_template_preset(2);
    config.round_report_template = "未保存的战报草稿".to_owned();
    config.round_report_template_preset_names[2] = "自定义名称".to_owned();
    config.round_report_template_presets[0] = "另一份战报".to_owned();
    config.message_template = "局内消息草稿".to_owned();
    let names_before = config.round_report_template_preset_names.clone();
    let messages_before = config.message_template_presets.clone();
    let message_draft_before = config.message_template.clone();

    assert!(config.reset_active_round_report_template_to_default());
    assert_eq!(config.round_report_template, DEFAULT_ROUND_REPORT_TEMPLATE);
    assert_eq!(config.round_report_template_presets[2], config.round_report_template);
    assert_eq!(config.round_report_template_presets[0], "另一份战报");
    assert_eq!(config.round_report_template_preset_names, names_before);
    assert_eq!(config.message_template_presets, messages_before);
    assert_eq!(config.message_template, message_draft_before);
    assert_eq!(config.active_round_report_template_preset, 2);
}

#[test]
fn localized_defaults_use_localized_preset_names() {
    let chinese = chinese();
    let english = AppConfig::defaults_for_language(Language::English);
    assert!(same(&chinese.message_template_preset_names, ["预设 1", "预设 2", "预设 3"]));
    assert!(same(&chinese.round_report_template_preset_names, ["预设 1", "预设 2", "预设 3"]));
    assert!(same(&english.message_template_preset_names, ["Preset 1", "Preset 2", "Preset 3"]));
    assert!(same(&english.round_report_template_preset_names, ["Preset 1", "Preset 2", "Preset 3"]));
}

#[test]
fn language_change_translates_only_untouched_builtin_templates_and_names() {
    let mut config = chinese();
    config.message_template_presets[2].push(' ');
    config.message_template_preset_names[1] = "我的预设".to_owned();
    config.round_report_template_presets[1] = "CUSTOM REPORT".to_owned();

    let localized = config.with_localized_defaults(Language::English);

    assert_eq!(localized.language, Language::English);
    assert_eq!(localized.message_template, DEFAULT_TEMPLATE_ENGLISH);
    assert_eq!(localized.message_template_presets[0], DEFAULT_TEMPLATE_ENGLISH);
    assert_eq!(localized.message_template_presets[1], DEFAULT_TEMPLATE_PRESET_2_ENGLISH);
    assert_eq!(localized.message_template_presets[2], format!("{DEFAULT_TEMPLATE} "));
    assert!(same(&localized.message_template_preset_names, ["Preset 1", "我的预设", "Preset 3"]));
    assert_eq!(localized.round_report_template_presets[1], "CUSTOM REPORT");
}

#[test]
fn overlay_dragging_is_one_consistent_semantic_state() {
    let mut config = chinese();
    assert!(!config.overlay_draggable());

    config.set_overlay_draggable(true);
    assert!(config.overlay_draggable());
    assert!(!config.overlay_locked);
    assert!(!config.overlay_mouse_passthrough);

    config.set_overlay_draggable(false);
    assert!(!config.overlay_draggable());
    assert!(config.overlay_locked);
    assert!(config.overlay_mouse_passthrough);

    config.overlay_locked = false;
    config.overlay_mouse_passthrough = true;
    assert!(!config.overlay_draggable());
}

#[test]
fn rejects_unknown_template_variable() {
    let error = validate_template("{{unknown}}", Language::Chinese).unwrap_err().to_string();
    assert!(error.contains("未知变量"));
}

#[test]
fn accepts_known_variables_and_rejects_syntax_errors() {
    assert!(validate_template("{{#if has_latest_dps}}{{latest_dps}}{{/if}}", Language::English).is_ok());
    let error = validate_template("{{#if has_latest_dps}}", Language::English).unwrap_err().to_string();
    assert!(error.contains("Message template syntax error"));
}

#[test]
fn version_five_builtin_templates_upgrade_to_new_round_metrics() {
    let migrated = AppConfig {
        version: 5,
        message_template: VERSION_5_DEFAULT_TEMPLATE.to_owned(),
        round_report_template: VERSION_5_DEFAULT_ROUND_REPORT_TEMPLATE.to_owned(),
        ..chinese()
    }
    .migrated();

    assert_eq!(migrated.message_template, DEFAULT_TEMPLATE);
    assert_eq!(migrated.round_report_template, DEFAULT_ROUND_REPORT_TEMPLATE);
}

#[test]
fn migration_preserves_custom_templates() {
    let migrated = AppConfig {
        version: 5,
        message_template: "CUSTOM {{latest_dps}}".to_owned(),
        round_report_template: "CUSTOM REPORT {{round_total_damage}}".to_owned(),
        ..chinese()
    }
    .migrated();

    assert_eq!(migrated.message_template, "CUSTOM {{latest_dps}}");
    assert_eq!(migrated.round_report_template, "CUSTOM REPORT {{round_total_damage}}");
}

#[test]
fn version_six_templates_migrate_average_variable_typo() {
    let migrated = AppConfig {
        version: 6,
        message_template: "{{ave_dps}} {{round_ave_dps}} {{#if has_ave_dps}}{{#if has_round_ave_dps}}ok{{/if}}{{/if}}".to_owned(),
        round_report_template: "{{round_report_ave_dps}} {{#if has_round_report_ave_dps}}ok{{/if}}".to_owned(),
        ..chinese()
    }
    .migrated();

    assert_eq!(
        migrated.message_template,
        "{{avg_dps}} {{round_avg_dps}} {{#if has_avg_dps}}{{#if has_round_avg_dps}}ok{{/if}}{{/if}}"
    );
    assert_eq!(
        migrated.round_report_template,
        "{{round_report_avg_dps}} {{#if has_round_report_avg_dps}}ok{{/if}}"
    );
    assert_eq!(migrate_average_variable_names("{{ave_dps}}"), "{{avg_dps}}");
}

#[test]
fn version_seven_templates_drop_redundant_presence_flags() {
    let migrated = AppConfig {
        version: 7,
        message_template: "{{#if has_boss_lock}}{{boss_lock}}{{/if}}|{{#if has_boss}}{{boss}}{{/if}}|{{#if has_no_wasd_for_10s}}{{#if no_wasd_for_10s}}idle{{else}}active{{/if}}{{/if}}".to_owned(),
        round_report_template: "{{#if has_round_total_damage}}{{round_total_damage}}{{/if}}|{{#if has_round_report_damage_taken}}{{round_report_damage_taken}}{{/if}}".to_owned(),
        ..chinese()
    }
    .migrated();

    assert_eq!(
        migrated.message_template,
        "{{#if boss_lock}}{{boss_lock}}{{/if}}|{{#if boss}}{{boss}}{{/if}}|{{#if true}}{{#if no_wasd_for_10s}}idle{{else}}active{{/if}}{{/if}}"
    );
    assert_eq!(
        migrated.round_report_template,
        "{{#if true}}{{round_total_damage}}{{/if}}|{{#if true}}{{round_report_damage_taken}}{{/if}}"
    );
    validate_template(&migrated.message_template, migrated.language).unwrap();
    validate_template(&migrated.round_report_template, migrated.language).unwrap();
    assert_eq!(migrate_redundant_presence_flags("{{#if has_boss}}x{{/if}}"), "{{#if boss}}x{{/if}}");
}

#[test]
fn version_eighteen_templates_remove_redundant_report_and_combat_duration_variables() {
    let old_template = "{{#if has_round_report}}report{{/if}}|{{round_combat_duration}}|{{#if has_round_combat_duration}}timed{{else}}no-time{{/if}}";
    let wrong = "{{#if has_round_report}}wrong-context{{/if}}";
    let migrated = AppConfig {
        version: 18,
        message_template: wrong.to_owned(),
        message_template_presets: std::array::from_fn(|_| wrong.to_owned()),
        round_report_template: old_template.to_owned(),
        round_report_template_presets: std::array::from_fn(|_| old_template.to_owned()),
        active_round_report_template_preset: 0,
        ..chinese()
    }
    .migrated();

    assert_eq!(migrated.message_template, "{{#if false}}wrong-context{{/if}}");
    let expected = "{{#if true}}report{{/if}}||{{#if false}}timed{{else}}no-time{{/if}}";
    assert_eq!(migrated.round_report_template, expected);
    assert!(migrated.round_report_template_presets.iter().all(|template| template == expected));
    validate_template(&migrated.round_report_template, migrated.language).unwrap();
}

#[test]
fn version_nineteen_templates_remove_unreachable_context_variables() {
    let combat = "{{phase}}|{{status}}|{{waiting_for_next_round}}|{{#if (and (eq phase \"COMBAT\") (eq status \"LIVE\") (not waiting_for_next_round))}}ok{{/if}}";
    let report = "{{phase}}|{{status}}|{{#if (eq phase \"LOBBY\")}}report{{/if}}";
    let migrated = AppConfig {
        version: 19,
        message_template: combat.to_owned(),
        message_template_presets: std::array::from_fn(|_| combat.to_owned()),
        active_message_template_preset: 0,
        round_report_template: report.to_owned(),
        round_report_template_presets: std::array::from_fn(|_| report.to_owned()),
        active_round_report_template_preset: 0,
        ..chinese()
    }
    .migrated();

    assert_eq!(
        migrated.message_template,
        "COMBAT|LIVE||{{#if (and (eq \"COMBAT\" \"COMBAT\") (eq \"LIVE\" \"LIVE\") (not false))}}ok{{/if}}"
    );
    assert_eq!(
        migrated.round_report_template,
        "LOBBY|LIVE|{{#if (eq \"LOBBY\" \"LOBBY\")}}report{{/if}}"
    );
    validate_template(&migrated.message_template, migrated.language).unwrap();
    validate_template(&migrated.round_report_template, migrated.language).unwrap();
}

#[test]
fn switching_presets_keeps_unsaved_edits_in_each_slot() {
    let mut config = chinese();
    config.message_template = "PRESET ONE".to_owned();

    assert!(config.select_message_template_preset(1));
    assert_eq!(config.message_template, DEFAULT_TEMPLATE_PRESET_2);
    config.message_template = "PRESET TWO".to_owned();

    assert!(config.select_message_template_preset(0));
    assert_eq!(config.message_template, "PRESET ONE");
    assert_eq!(config.message_template_presets[1], "PRESET TWO");
    assert!(!config.select_message_template_preset(MESSAGE_TEMPLATE_PRESET_COUNT));
}

#[test]
fn version_eight_config_migrates_existing_template_into_first_preset() {
    let migrated = AppConfig {
        version: 8,
        message_template: "CUSTOM {{latest_dps}}".to_owned(),
        ..chinese()
    }
    .migrated();

    assert_eq!(migrated.active_message_template_preset, 0);
    assert_eq!(migrated.message_template_presets[0], "CUSTOM {{latest_dps}}");
    assert_eq!(migrated.message_template_presets[1], DEFAULT_TEMPLATE_PRESET_2);
    assert_eq!(migrated.message_template_presets[2], DEFAULT_TEMPLATE);
}

#[test]
fn validation_checks_inactive_presets() {
    let mut config = chinese();
    config.message_template_presets[2] = "{{unknown}}".to_owned();
    let error = validate(&config).unwrap_err();
    assert!(error.contains("预设 3"));
}

#[test]
fn switching_round_report_presets_keeps_unsaved_edits_in_each_slot() {
    let mut config = chinese();
    config.round_report_template = "REPORT ONE".to_owned();

    assert!(config.select_round_report_template_preset(1));
    assert_eq!(config.round_report_template, DEFAULT_ROUND_REPORT_TEMPLATE_PRESET_2);
    config.round_report_template = "REPORT TWO".to_owned();

    assert!(config.select_round_report_template_preset(0));
    assert_eq!(config.round_report_template, "REPORT ONE");
    assert_eq!(config.round_report_template_presets[1], "REPORT TWO");
    assert!(!config.select_round_report_template_preset(ROUND_REPORT_TEMPLATE_PRESET_COUNT));
}

#[test]
fn version_nine_config_migrates_existing_report_into_first_preset() {
    let migrated = AppConfig {
        version: 9,
        round_report_template: "REPORT {{round_total_damage}}".to_owned(),
        ..chinese()
    }
    .migrated();

    assert_eq!(migrated.active_round_report_template_preset, 0);
    assert_eq!(migrated.round_report_template_presets[0], "REPORT {{round_total_damage}}");
    assert_eq!(migrated.round_report_template_presets[1], DEFAULT_ROUND_REPORT_TEMPLATE_PRESET_2);
    assert_eq!(migrated.round_report_template_presets[2], DEFAULT_ROUND_REPORT_TEMPLATE);
}

#[test]
fn preset_names_must_be_non_empty_and_reasonably_short() {
    let mut config = chinese();
    config.message_template_preset_names[1] = "   ".to_owned();
    assert!(validate(&config).unwrap_err().contains("名称不能为空"));

    config.message_template_preset_names[1] = "x".repeat(TEMPLATE_PRESET_NAME_MAX_CHARS + 1);
    assert!(validate(&config).unwrap_err().contains("名称不能超过"));
}

#[test]
fn validation_checks_inactive_report_presets() {
    let mut config = chinese();
    config.round_report_template_presets[1] = "{{unknown}}".to_owned();
    let error = validate(&config).unwrap_err();
    assert!(error.contains("战报模板预设 2"));
}

#[test]
fn validation_reports_the_numeric_checks_and_newer_versions() {
    let config = AppConfig::defaults_for_language(Language::English);
    assert!(validate(&config).is_ok());
    assert_eq!(
        config.validate(false, true, true).unwrap_err().to_string(),
        "Alert volume must be between 0 and 1"
    );
    assert_eq!(
        config.validate(true, true, false).unwrap_err().to_string(),
        "Invalid OSC address; expected something like 127.0.0.1:9000"
    );
    let newer = AppConfig { version: CONFIG_VERSION + 1, ..AppConfig::defaults_for_language(Language::English) };
    assert!(validate(&newer).unwrap_err().contains("this version supports up to 21"));
}

#[test]
fn version_ten_builtin_report_presets_gain_standstill_metric() {
    let old = VERSION_10_DEFAULT_ROUND_REPORT_TEMPLATE.to_owned();
    let migrated = AppConfig {
        version: 10,
        round_report_template: old.clone(),
        round_report_template_presets: std::array::from_fn(|_| old.clone()),
        ..chinese()
    }
    .migrated();

    assert_eq!(migrated.round_report_template, DEFAULT_ROUND_REPORT_TEMPLATE);
    assert!(same(
        &migrated.round_report_template_presets,
        [DEFAULT_ROUND_REPORT_TEMPLATE, DEFAULT_ROUND_REPORT_TEMPLATE_PRESET_2, DEFAULT_ROUND_REPORT_TEMPLATE]
    ));
}

#[test]
fn version_thirteen_builtin_presets_upgrade_without_replacing_custom_text() {
    let migrated = AppConfig {
        version: 13,
        message_template: VERSION_13_DEFAULT_TEMPLATE.to_owned(),
        message_template_presets: [
            VERSION_13_DEFAULT_TEMPLATE.to_owned(),
            "CUSTOM MESSAGE".to_owned(),
            VERSION_13_DEFAULT_TEMPLATE.to_owned(),
        ],
        round_report_template: VERSION_13_DEFAULT_ROUND_REPORT_TEMPLATE.to_owned(),
        round_report_template_presets: [
            VERSION_13_DEFAULT_ROUND_REPORT_TEMPLATE.to_owned(),
            "CUSTOM REPORT".to_owned(),
            VERSION_13_DEFAULT_ROUND_REPORT_TEMPLATE.to_owned(),
        ],
        ..chinese()
    }
    .migrated();

    assert!(same(&migrated.message_template_presets, [DEFAULT_TEMPLATE, "CUSTOM MESSAGE", DEFAULT_TEMPLATE]));
    assert!(same(
        &migrated.round_report_template_presets,
        [DEFAULT_ROUND_REPORT_TEMPLATE, "CUSTOM REPORT", DEFAULT_ROUND_REPORT_TEMPLATE]
    ));
}

#[test]
fn version_sixteen_english_meme_presets_upgrade_without_replacing_custom_text() {
    let migrated = AppConfig {
        version: 16,
        language: Language::English,
        message_template: VERSION_16_DEFAULT_TEMPLATE_ENGLISH.to_owned(),
        message_template_presets: [
            VERSION_16_DEFAULT_TEMPLATE_ENGLISH.to_owned(),
            VERSION_16_DEFAULT_TEMPLATE_PRESET_2_ENGLISH.to_owned(),
            "CUSTOM MEME".to_owned(),
        ],
        ..chinese()
    }
    .migrated();

    assert_eq!(migrated.message_template, DEFAULT_TEMPLATE_ENGLISH);
    assert!(same(
        &migrated.message_template_presets,
        [DEFAULT_TEMPLATE_ENGLISH, DEFAULT_TEMPLATE_PRESET_2_ENGLISH, "CUSTOM MEME"]
    ));
}

#[test]
fn version_sixteen_modified_english_templates_are_never_replaced() {
    let customized_first = format!("{VERSION_16_DEFAULT_TEMPLATE_ENGLISH} ");
    let customized_second = format!("{VERSION_16_DEFAULT_TEMPLATE_PRESET_2_ENGLISH}!");
    let migrated = AppConfig {
        version: 16,
        language: Language::English,
        message_template: customized_first.clone(),
        message_template_presets: [customized_first.clone(), customized_second.clone(), "CUSTOM MEME".to_owned()],
        ..chinese()
    }
    .migrated();

    assert_eq!(migrated.message_template, customized_first);
    assert_eq!(migrated.message_template_presets[0], customized_first);
    assert_eq!(migrated.message_template_presets[1], customized_second);
    assert_eq!(migrated.message_template_presets[2], "CUSTOM MEME");
}

#[test]
fn version_seventeen_chinese_report_unit_is_localized_without_replacing_custom_text() {
    let mut old = chinese();
    old.version = 17;
    old.round_report_template = VERSION_17_DEFAULT_ROUND_REPORT_TEMPLATE_PRESET_2.to_owned();
    old.round_report_template_presets[1] = VERSION_17_DEFAULT_ROUND_REPORT_TEMPLATE_PRESET_2.to_owned();
    old.active_round_report_template_preset = 1;

    let migrated = old.migrated();
    assert_eq!(migrated.version, CONFIG_VERSION);
    assert_eq!(migrated.round_report_template, DEFAULT_ROUND_REPORT_TEMPLATE_PRESET_2);
    assert_eq!(migrated.round_report_template_presets[1], DEFAULT_ROUND_REPORT_TEMPLATE_PRESET_2);

    let mut custom = chinese();
    custom.version = 17;
    custom.round_report_template_presets[1] = format!("{VERSION_17_DEFAULT_ROUND_REPORT_TEMPLATE_PRESET_2} ");
    custom.active_round_report_template_preset = 1;
    custom.round_report_template = custom.round_report_template_presets[1].clone();
    assert_eq!(
        custom.migrated().round_report_template,
        format!("{VERSION_17_DEFAULT_ROUND_REPORT_TEMPLATE_PRESET_2} ")
    );
}

#[test]
fn version_fifteen_builtin_reports_gain_step_estimate_without_replacing_custom_text() {
    let migrated = AppConfig {
        version: 15,
        round_report_template: VERSION_15_DEFAULT_ROUND_REPORT_TEMPLATE.to_owned(),
        round_report_template_presets: [
            VERSION_15_DEFAULT_ROUND_REPORT_TEMPLATE.to_owned(),
            VERSION_15_DEFAULT_ROUND_REPORT_TEMPLATE_PRESET_2.to_owned(),
            "CUSTOM {{current_step}}".to_owned(),
        ],
        active_round_report_template_preset: 0,
        ..chinese()
    }
    .migrated();

    assert_eq!(migrated.version, CONFIG_VERSION);
    assert!(same(
        &migrated.round_report_template_presets,
        [DEFAULT_ROUND_REPORT_TEMPLATE, DEFAULT_ROUND_REPORT_TEMPLATE_PRESET_2, "CUSTOM {{current_step}}"]
    ));
    assert_eq!(migrated.round_report_template, DEFAULT_ROUND_REPORT_TEMPLATE);
}

#[test]
fn migrating_twice_is_migrating_once() {
    let old = AppConfig {
        version: 6,
        message_template: "{{ave_dps}} {{#if has_boss}}{{boss}}{{/if}}".to_owned(),
        stale_after_seconds: 900,
        ..chinese()
    };
    let once = old.migrated();
    let twice = once.duplicate().migrated();
    assert_eq!(once.message_template, twice.message_template);
    assert_eq!(once.message_template_presets, twice.message_template_presets);
    assert_eq!(once.round_report_template_presets, twice.round_report_template_presets);
    assert_eq!(once.stale_after_seconds, 300);
    assert_eq!(twice.stale_after_seconds, 300);
    assert_eq!(twice.version, CONFIG_VERSION);
}
