use ecliptica_data_analyzer::config::validate_template;
use ecliptica_data_analyzer::i18n::{
    format_seconds_pattern, heart_rate_variable_groups, live_variable_groups, report_variable_groups,
    template_syntax_examples, text, Language, Text, TextPair,
};

#[test]
fn chinese_locale_variants_select_chinese() {
    assert_eq!(Language::from_locale("zh-CN"), Language::Chinese);
    assert_eq!(Language::from_locale("zh_Hant_TW"), Language::Chinese);
}

#[test]
fn non_chinese_and_invalid_locales_select_english() {
    assert_eq!(Language::from_locale("en-US"), Language::English);
    assert_eq!(Language::from_locale("ja_JP"), Language::English);
    assert_eq!(Language::from_locale("ko-KR"), Language::English);
    assert_eq!(Language::from_locale("zhongwen"), Language::English);
    assert_eq!(Language::from_locale(""), Language::English);
}

#[test]
fn paired_text_selects_the_requested_language() {
    let pair = TextPair::new("Overview", "首页");
    assert_eq!(pair.get(Language::English), "Overview");
    assert_eq!(pair.get(Language::Chinese), "首页");
}

#[test]
fn central_catalog_contains_no_empty_translation_halves() {
    for key in Text::all() {
        let pair = text(key);
        assert!(!pair.english.is_empty(), "{key:?} has an empty English half");
        assert!(!pair.chinese.is_empty(), "{key:?} has an empty Chinese half");
    }
}

#[test]
fn heart_rate_user_copy_avoids_internal_network_details() {
    let user_copy = [
        Text::EnableHeartRateHint,
        Text::HeartRateServerFailed,
        Text::HeartRateNoPort,
        Text::HeartRateConnected,
        Text::HeartRateDisconnected,
        Text::HeartRateWaiting,
        Text::HeartRateVariableOffline,
    ];

    for copy in user_copy {
        for language in Language::all() {
            let value = text(copy).get(language).to_ascii_lowercase();
            assert!(
                !["127.0.0.1", "49670", "http", "protocol", "host", "端口", "协议", "主机"]
                    .iter()
                    .any(|technical_term| value.contains(technical_term)),
                "heart-rate copy exposes an internal detail: {value}"
            );
            assert!(
                !value
                    .split(|character: char| !character.is_ascii_alphabetic())
                    .any(|word| matches!(word, "port" | "ports")),
                "heart-rate copy exposes an internal port detail: {value}"
            );
        }
    }
}

#[test]
fn locale_language_part_ignores_ascii_case() {
    assert_eq!(Language::from_locale("ZH"), Language::Chinese);
    assert_eq!(Language::from_locale("Zh-tw"), Language::Chinese);
    assert_eq!(Language::from_locale("-zh"), Language::English);
}

#[test]
fn system_locale_without_a_value_falls_back_to_english() {
    assert_eq!(Language::for_system_locale(None), Language::English);
    assert_eq!(Language::for_system_locale(Some("zh-CN".to_owned())), Language::Chinese);
}

#[test]
fn catalog_lists_every_entry_once() {
    let all = Text::all();
    for (i, a) in all.iter().enumerate() {
        for b in all.iter().skip(i + 1) {
            assert_ne!(a, b);
        }
    }
    assert_eq!(Language::all(), vec![Language::English, Language::Chinese]);
}

#[test]
fn seconds_pattern_fills_the_catalog_entry() {
    assert_eq!(format_seconds_pattern(Language::English, "1.5"), "Every 1.5 seconds");
    assert_eq!(format_seconds_pattern(Language::Chinese, "3"), "每 3 秒");
}

#[test]
fn every_documented_variable_is_accepted_by_template_validation() {
    let groups = [heart_rate_variable_groups(), live_variable_groups(), report_variable_groups()];
    let mut count = 0;
    for group in groups.iter().flatten() {
        assert!(!group.title.english.is_empty() && !group.title.chinese.is_empty());
        for variable in &group.variables {
            let template = format!("{{{{{}}}}}", variable.name);
            assert!(validate_template(&template, Language::English).is_ok(), "{template}");
            count += 1;
        }
    }
    assert_eq!(count, 41);
}

#[test]
fn syntax_examples_pass_template_validation() {
    let examples = template_syntax_examples();
    assert_eq!(examples.len(), 4);
    for example in examples {
        for language in Language::all() {
            assert!(validate_template(example.code.get(language), language).is_ok());
        }
    }
}
