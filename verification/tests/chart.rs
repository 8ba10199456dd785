use chrono::{Local, TimeZone};
use ecliptica_data_analyzer::analyzer::Analyzer;
use ecliptica_data_analyzer::ui_state::{chart_view, ChartView};

fn line(second: u32, message: &str) -> String {
    format!("2026.08.03 01:02:{second:02} Debug      -  {message}")
}

fn timestamp(second: u32) -> i64 {
    Local.with_ymd_and_hms(2026, 8, 3, 1, 2, second).earliest().unwrap().timestamp()
}

#[test]
fn the_chart_follows_the_round_in_progress_then_the_round_that_ended() {
    let mut analyzer = Analyzer::new();
    assert_eq!(chart_view(&analyzer.snapshot_at(timestamp(0))), ChartView::EnterEcliptica);
    analyzer.process_line(&line(0, "[Behaviour] Entering Room: Ecliptica"), None);
    assert_eq!(chart_view(&analyzer.snapshot_at(timestamp(0))), ChartView::WaitingFirstSecond);
    assert_eq!(chart_view(&analyzer.snapshot_at(timestamp(2))), ChartView::WaitingRound);
    analyzer.process_line(&line(2, "ECLIPTICA - now in intermission"), None);
    analyzer.process_line(&line(3, "ECLIPTICA - now in stage: Stage_Demo"), None);
    analyzer.process_line(&line(4, "Dealing 42 STRIKE damage"), None);
    assert_eq!(
        chart_view(&analyzer.snapshot_at(timestamp(6))),
        ChartView::Round { epoch: 1, step: None, current: true }
    );
    analyzer.process_line(&line(7, "ECLIPTICA - now in intermission"), None);
    assert_eq!(
        chart_view(&analyzer.snapshot_at(timestamp(9))),
        ChartView::Round { epoch: 1, step: None, current: false }
    );
}
