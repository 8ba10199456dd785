use ecliptica_data_analyzer::analysis::DataStatus;
use ecliptica_data_analyzer::analyzer::Analyzer;
use ecliptica_data_analyzer::i18n::{Language, Text};
use ecliptica_data_analyzer::log_protocol::DiagnosticCode;
use ecliptica_data_analyzer::log_reader::{
    complete_lines, data_status, diagnostic_message, latest_log_index, next_backoff, reader_step, set_status,
    ReaderAction, ReaderEvent, ReaderState, MAX_BACKOFF_MS, MIN_BACKOFF_MS,
};
use ecliptica_data_analyzer::runtime::EventLevel;

fn consume_lines(analyzer: &mut Analyzer, pending: &mut Vec<u8>, bytes: Vec<u8>) {
    for line in complete_lines(pending, bytes) {
        analyzer.process_line(&line, None);
    }
}

#[test]
fn retains_half_line_and_half_utf8_until_newline() {
    let mut analyzer = Analyzer::new();
    let mut pending = Vec::new();
    let text = "2026.08.03 01:02:00 Debug - ECLIPTICA - now fighting boss: Maxipuss(Clone) on phase: 1\n2026.08.03 01:02:01 Debug - ownership of Maxipuss transferred to 小白\n";
    let bytes = text.as_bytes();
    let split = bytes.iter().position(|byte| *byte >= 0x80).unwrap() + 1;
    consume_lines(&mut analyzer, &mut pending, bytes[..split].to_vec());
    assert!(!pending.is_empty());
    consume_lines(&mut analyzer, &mut pending, bytes[split..].to_vec());
    assert_eq!(analyzer.snapshot_at(i64::MAX).boss_lock.as_deref(), Some("小白"));
}

#[test]
fn complete_lines_drop_empty_lines_and_trailing_carriage_returns() {
    let mut pending = b"first".to_vec();
    let lines = complete_lines(&mut pending, b" line\r\n\r\n\nsecond\npartial".to_vec());
    // A line holding only a carriage return is not empty before the return is stripped.
    assert_eq!(lines, vec!["first line".to_owned(), String::new(), "second".to_owned()]);
    assert_eq!(pending, b"partial".to_vec());
    assert!(complete_lines(&mut pending, b" still".to_vec()).is_empty());
    assert_eq!(pending, b"partial still".to_vec());
}

#[test]
fn data_status_follows_the_wait_time() {
    assert_eq!(data_status(None, 10_000, 5_000), DataStatus::Recovering);
    assert_eq!(data_status(Some(10_000), 15_000, 5_000), DataStatus::Live);
    assert_eq!(data_status(Some(10_000), 15_001, 5_000), DataStatus::Stale);
    assert_eq!(data_status(Some(20_000), 15_000, 5_000), DataStatus::Live);
}

#[test]
fn search_backoff_doubles_up_to_its_limit() {
    assert_eq!(next_backoff(250), 500);
    assert_eq!(next_backoff(4_000), MAX_BACKOFF_MS);
    assert_eq!(next_backoff(MAX_BACKOFF_MS), MAX_BACKOFF_MS);
}

#[test]
fn only_status_changes_are_announced() {
    let mut last = DataStatus::Searching;
    assert_eq!(set_status(&mut last, DataStatus::Searching), None);
    assert_eq!(set_status(&mut last, DataStatus::Live), Some((EventLevel::Info, Text::StatusLive)));
    assert_eq!(last, DataStatus::Live);
    assert_eq!(set_status(&mut last, DataStatus::Live), None);
    assert_eq!(set_status(&mut last, DataStatus::Error), Some((EventLevel::Error, Text::StatusError)));
}

#[test]
fn the_latest_log_is_the_greatest_log_name() {
    let names = vec![
        "readme.txt".to_owned(),
        "output_log_2026-08-01_10-00-00.txt".to_owned(),
        "output_log_2026-08-03_09-00-00.txt".to_owned(),
        "output_log_2026-08-02_23-59-59.txt".to_owned(),
        "output_log_2026-08-09.log".to_owned(),
    ];
    assert_eq!(latest_log_index(&names), Some(2));
    assert_eq!(latest_log_index(&vec!["notes.txt".to_owned()]), None);
    assert_eq!(latest_log_index(&Vec::new()), None);
}

#[test]
fn diagnostics_are_explained_in_the_user_language() {
    let english = diagnostic_message(DiagnosticCode::Boss, Language::English);
    assert!(english.contains("Boss log format changed"));
    let chinese = diagnostic_message(DiagnosticCode::Damage, Language::Chinese);
    assert!(!chinese.is_empty());
}

#[test]
fn chunked_reads_give_the_lines_of_one_read() {
    let text = "first\r\nsecond 伤害\nthird".as_bytes();
    for cut in 0..=text.len() {
        let mut pending = b"zero ".to_vec();
        let mut lines = complete_lines(&mut pending, text[..cut].to_vec());
        lines.extend(complete_lines(&mut pending, text[cut..].to_vec()));
        let mut whole_pending = b"zero ".to_vec();
        let whole = complete_lines(&mut whole_pending, text.to_vec());
        assert_eq!(lines, whole, "cut at {cut}");
        assert_eq!(pending, whole_pending);
    }
}

#[test]
fn the_reader_starts_over_on_a_new_replaced_truncated_or_failed_file() {
    let reading = ReaderState { offset: 120, last_growth: Some(5_000), backoff: 4_000 };
    let (state, action) = reader_step(reading, ReaderEvent::Switched);
    assert_eq!(state, ReaderState { offset: 0, ..reading });
    assert_eq!(
        action,
        ReaderAction { reset_analysis: true, clear_pending: true, consume: false, forget_identity: true, drop_file: false }
    );
    let (state, action) = reader_step(reading, ReaderEvent::Replaced);
    assert_eq!(state, ReaderState { offset: 0, last_growth: None, backoff: 4_000 });
    assert!(action.reset_analysis && !action.forget_identity && !action.consume);
    let (state, action) = reader_step(reading, ReaderEvent::Truncated { read: 30, now: 9_000 });
    assert_eq!(state, ReaderState { offset: 30, last_growth: Some(9_000), backoff: 4_000 });
    assert!(action.reset_analysis && action.clear_pending && action.consume);
    let (state, action) = reader_step(reading, ReaderEvent::ReadFailed);
    assert_eq!(state, ReaderState { offset: 0, last_growth: None, backoff: 4_000 });
    assert!(action.drop_file && action.forget_identity && action.reset_analysis);
}

#[test]
fn appended_bytes_move_the_offset_and_searching_doubles_the_wait() {
    let reading = ReaderState { offset: 120, last_growth: Some(5_000), backoff: 4_000 };
    let (state, action) = reader_step(reading, ReaderEvent::Appended { read: 8, now: 6_000 });
    assert_eq!(state, ReaderState { offset: 128, last_growth: Some(6_000), backoff: MIN_BACKOFF_MS });
    assert!(action.consume && !action.reset_analysis);
    let (state, action) = reader_step(reading, ReaderEvent::Appended { read: 0, now: 6_000 });
    assert_eq!(state, ReaderState { offset: 120, last_growth: Some(5_000), backoff: MIN_BACKOFF_MS });
    assert!(!action.consume);
    let (state, _) = reader_step(reading, ReaderEvent::NoFile);
    assert_eq!(state.backoff, 8_000);
    let (state, _) = reader_step(state, ReaderEvent::NoFile);
    assert_eq!(state.backoff, 8_000);
}
