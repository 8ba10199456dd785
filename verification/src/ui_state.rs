//! Decisions of the settings window that do not draw anything: the hidden
//! developer-mode gesture, the chart's automatic fitting, the event log's
//! de-duplication, shortened labels and unsaved-draft detection.
//!
//! Time is counted in milliseconds on a monotonic clock.
use vstd::prelude::*;

use crate::analysis::{DpsHistoryPoint, GameSnapshot, Ratio, RoundPhase, RoundReport, SnapshotView};
use crate::config::{texts_view, AppConfig, ConfigView};
use crate::i18n::{catalog, format_pattern, pairs_view, patterned, text, Language, Text};
use crate::runtime::EventLevel;
use crate::text::{chars_eq, chars_of, decimal_string, decimal_text, string_of, trim, trimmed};

verus! {

pub const DEVELOPER_MODE_CLICK_COUNT: u8 = 5;
pub const DEVELOPER_MODE_CLICK_TIMEOUT_MS: u64 = 4000;
pub const DPS_CHART_AUTO_FIT_IDLE_MS: u64 = 5000;
pub const DPS_CHART_AUTO_FIT_INTERVAL_MS: u64 = 5000;
pub const MAX_LOG_ROWS: usize = 200;

pub open spec fn since(from: u64, to: u64) -> u64 {
    if to >= from {
        (to - from) as u64
    } else {
        0
    }
}

fn since_ms(from: u64, to: u64) -> (r: u64)
    ensures
        r == since(from, to),
{
    if to >= from {
        to - from
    } else {
        0
    }
}

/// One click on the logo at `now`: a click more than four seconds after the
/// previous one restarts the count; the fifth timely click toggles
/// developer mode and restarts the count.
pub fn register_hidden_click(clicks: &mut u8, last_click: &mut Option<u64>, now: u64) -> (toggled: bool)
    ensures
        ({
            let base = match *old(last_click) {
                Some(last) => if since(last, now) > DEVELOPER_MODE_CLICK_TIMEOUT_MS {
                    0
                } else {
                    *old(clicks)
                },
                None => 0,
            };
            let count = if base == u8::MAX {
                u8::MAX
            } else {
                (base + 1) as u8
            };
            &&& *final(last_click) == Some(now)
            &&& toggled == (count >= DEVELOPER_MODE_CLICK_COUNT)
            &&& *final(clicks) == if toggled {
                0
            } else {
                count
            }
        }),
{
    let reset = match *last_click {
        Some(last) => since_ms(last, now) > DEVELOPER_MODE_CLICK_TIMEOUT_MS,
        None => true,
    };
    if reset {
        *clicks = 0;
    }
    *last_click = Some(now);
    *clicks = if *clicks == u8::MAX {
        u8::MAX
    } else {
        *clicks + 1
    };
    if *clicks < DEVELOPER_MODE_CLICK_COUNT {
        return false;
    }
    *clicks = 0;
    true
}

/// What the DPS chart shows for a snapshot.
#[derive(Debug, Clone, Copy, PartialEq, Eq, Structural)]
pub enum ChartView {
    /// No history yet, inside Ecliptica: the first second is not complete.
    WaitingFirstSecond,
    /// No history yet, outside Ecliptica.
    EnterEcliptica,
    /// The history holds no combat round yet.
    WaitingRound,
    /// The chosen round has no point yet.
    WaitingData,
    /// The round `epoch`, titled with its estimated step when known, as the
    /// round in progress (`current`) or the one that just ended.
    Round { epoch: u64, step: Option<u32>, current: bool },
}

/// The combat round in progress, if any.
pub open spec fn active_epoch(s: SnapshotView) -> Option<u64> {
    if s.phase == RoundPhase::Combat && s.combat_round_epoch > 0 {
        Some(s.combat_round_epoch)
    } else {
        None
    }
}

/// The combat epoch of the latest point that belongs to a round.
pub open spec fn latest_epoch(h: Seq<DpsHistoryPoint>) -> Option<u64>
    decreases h.len(),
{
    if h.len() == 0 {
        None
    } else if h.last().combat_round_epoch > 0 {
        Some(h.last().combat_round_epoch)
    } else {
        latest_epoch(h.drop_last())
    }
}

/// Whether some point belongs to the round `epoch`.
pub open spec fn has_epoch(h: Seq<DpsHistoryPoint>, epoch: u64) -> bool {
    exists|i: int| 0 <= i < h.len() && #[trigger] h[i].combat_round_epoch == epoch
}

/// The estimated step of the latest point of round `epoch` that has one.
pub open spec fn latest_step(h: Seq<DpsHistoryPoint>, epoch: u64) -> Option<u32>
    decreases h.len(),
{
    if h.len() == 0 {
        None
    } else if h.last().combat_round_epoch == epoch && h.last().estimated_step is Some {
        h.last().estimated_step
    } else {
        latest_step(h.drop_last(), epoch)
    }
}

/// The chart: the round in progress, else the latest round of the history;
/// its title step is the latest step recorded for it, else the current
/// estimate.
pub open spec fn spec_chart_view(s: SnapshotView) -> ChartView {
    let h = s.dps_history;
    if h.len() == 0 {
        if s.in_ecliptica {
            ChartView::WaitingFirstSecond
        } else {
            ChartView::EnterEcliptica
        }
    } else {
        let target = match active_epoch(s) {
            Some(e) => Some(e),
            None => latest_epoch(h),
        };
        match target {
            None => ChartView::WaitingRound,
            Some(e) => if !has_epoch(h, e) {
                ChartView::WaitingData
            } else {
                ChartView::Round {
                    epoch: e,
                    step: match latest_step(h, e) {
                        Some(step) => Some(step),
                        None => if s.has_step_estimate {
                            Some(s.current_step)
                        } else {
                            None
                        },
                    },
                    current: active_epoch(s) == Some(e),
                }
            },
        }
    }
}

/// What the DPS chart shows for `snapshot`.
pub fn chart_view(snapshot: &GameSnapshot) -> (r: ChartView)
    ensures
        r == spec_chart_view(snapshot@),
{
    let h = &snapshot.dps_history;
    let ghost hv = snapshot@.dps_history;
    assert(h@ == hv);
    if h.len() == 0 {
        return if snapshot.in_ecliptica {
            ChartView::WaitingFirstSecond
        } else {
            ChartView::EnterEcliptica
        };
    }
    let active = if snapshot.phase == RoundPhase::Combat && snapshot.combat_round_epoch > 0 {
        Some(snapshot.combat_round_epoch)
    } else {
        None
    };
    let target = match active {
        Some(e) => Some(e),
        None => {
            let mut i: usize = h.len();
            let mut found: Option<u64> = None;
            assert(hv.take(hv.len() as int) =~= hv);
            while i > 0 && found.is_none()
                invariant
                    i <= hv.len(),
                    h@ == hv,
                    latest_epoch(hv) == match found {
                        Some(e) => Some(e),
                        None => latest_epoch(hv.take(i as int)),
                    },
                decreases i,
            {
                assert(hv.take(i as int).drop_last() =~= hv.take(i - 1));
                assert(hv.take(i as int).last() == hv[i - 1]);
                if h[i - 1].combat_round_epoch > 0 {
                    found = Some(h[i - 1].combat_round_epoch);
                }
                i = i - 1;
            }
            if found.is_none() {
                assert(hv.take(0) =~= Seq::<DpsHistoryPoint>::empty());
            }
            assert(hv.take(hv.len() as int) =~= hv);
            found
        },
    };
    proof {
        assert(hv.take(hv.len() as int) =~= hv);
    }
    match target {
        None => ChartView::WaitingRound,
        Some(e) => {
            let mut j: usize = 0;
            let mut seen = false;
            while j < h.len() && !seen
                invariant
                    j <= hv.len(),
                    h@ == hv,
                    seen ==> has_epoch(hv, e),
                    !seen ==> forall|k: int| 0 <= k < j ==> hv[k].combat_round_epoch != e,
                decreases hv.len() - j + if seen { 0int } else { 1int },
            {
                if h[j].combat_round_epoch == e {
                    seen = true;
                } else {
                    j = j + 1;
                }
            }
            if !seen {
                return ChartView::WaitingData;
            }
            let mut i: usize = h.len();
            let mut step: Option<u32> = None;
            assert(hv.take(hv.len() as int) =~= hv);
            let mut done = false;
            while i > 0 && !done
                invariant
                    i <= hv.len(),
                    h@ == hv,
                    latest_step(hv, e) == if done {
                        step
                    } else {
                        latest_step(hv.take(i as int), e)
                    },
                    !done ==> step is None,
                decreases i,
            {
                assert(hv.take(i as int).drop_last() =~= hv.take(i - 1));
                assert(hv.take(i as int).last() == hv[i - 1]);
                if h[i - 1].combat_round_epoch == e && h[i - 1].estimated_step.is_some() {
                    step = h[i - 1].estimated_step;
                    done = true;
                }
                i = i - 1;
            }
            if !done {
                assert(hv.take(0) =~= Seq::<DpsHistoryPoint>::empty());
            }
            let title_step = match step {
                Some(s) => Some(s),
                None => if snapshot.has_step_estimate {
                    Some(snapshot.current_step)
                } else {
                    None
                },
            };
            ChartView::Round { epoch: e, step: title_step, current: active == Some(e) }
        },
    }
}

/// When the DPS chart fits its view by itself.
#[derive(Debug, Clone, Copy, PartialEq, Eq, Structural)]
pub struct DpsChartViewState {
    pub selected_epoch: Option<u64>,
    pub last_user_interaction: Option<u64>,
    pub last_auto_fit: Option<u64>,
}

/// Whether the last automatic fit is older than the last user input.
pub open spec fn fit_predates_input(v: DpsChartViewState, input: u64) -> bool {
    match v.last_auto_fit {
        Some(fit) => fit < input,
        None => true,
    }
}

pub open spec fn spec_should_auto_fit(v: DpsChartViewState, now: u64) -> bool {
    match v.last_user_interaction {
        Some(input) => if since(input, now) < DPS_CHART_AUTO_FIT_IDLE_MS {
            false
        } else if fit_predates_input(v, input) {
            true
        } else {
            match v.last_auto_fit {
                Some(fit) => since(fit, now) >= DPS_CHART_AUTO_FIT_INTERVAL_MS,
                None => true,
            }
        },
        None => match v.last_auto_fit {
            Some(fit) => since(fit, now) >= DPS_CHART_AUTO_FIT_INTERVAL_MS,
            None => true,
        },
    }
}

pub open spec fn sat_sub_u64(a: u64, b: u64) -> u64 {
    if a >= b {
        (a - b) as u64
    } else {
        0
    }
}

pub open spec fn spec_next_auto_fit_in(v: DpsChartViewState, now: u64) -> u64 {
    match v.last_user_interaction {
        Some(input) => if fit_predates_input(v, input) {
            sat_sub_u64(DPS_CHART_AUTO_FIT_IDLE_MS, since(input, now))
        } else {
            match v.last_auto_fit {
                Some(fit) => sat_sub_u64(DPS_CHART_AUTO_FIT_INTERVAL_MS, since(fit, now)),
                None => 0,
            }
        },
        None => match v.last_auto_fit {
            Some(fit) => sat_sub_u64(DPS_CHART_AUTO_FIT_INTERVAL_MS, since(fit, now)),
            None => 0,
        },
    }
}

impl DpsChartViewState {
    /// No selection, no input, never fitted.
    pub fn new() -> (r: Self)
        ensures
            r == (DpsChartViewState { selected_epoch: None, last_user_interaction: None, last_auto_fit: None }),
    {
        DpsChartViewState { selected_epoch: None, last_user_interaction: None, last_auto_fit: None }
    }

    pub fn record_user_interaction(&mut self, now: u64)
        ensures
            *final(self) == (DpsChartViewState { last_user_interaction: Some(now), ..*old(self) }),
    {
        self.last_user_interaction = Some(now);
    }

    /// The chart fits itself five seconds after the last user input (at
    /// once if no fit followed that input), and otherwise every five
    /// seconds.
    pub fn should_auto_fit(&self, now: u64) -> (r: bool)
        ensures
            r == spec_should_auto_fit(*self, now),
    {
        if let Some(input) = self.last_user_interaction {
            if since_ms(input, now) < DPS_CHART_AUTO_FIT_IDLE_MS {
                return false;
            }
            let predates = match self.last_auto_fit {
                Some(fit) => fit < input,
                None => true,
            };
            if predates {
                return true;
            }
        }
        match self.last_auto_fit {
            Some(fit) => since_ms(fit, now) >= DPS_CHART_AUTO_FIT_INTERVAL_MS,
            None => true,
        }
    }

    pub fn record_auto_fit(&mut self, now: u64)
        ensures
            *final(self) == (DpsChartViewState { last_auto_fit: Some(now), ..*old(self) }),
    {
        self.last_auto_fit = Some(now);
    }

    /// How long until the next automatic fit may happen.
    pub fn next_auto_fit_in(&self, now: u64) -> (r: u64)
        ensures
            r == spec_next_auto_fit_in(*self, now),
    {
        if let Some(input) = self.last_user_interaction {
            let predates = match self.last_auto_fit {
                Some(fit) => fit < input,
                None => true,
            };
            if predates {
                let d = since_ms(input, now);
                return if DPS_CHART_AUTO_FIT_IDLE_MS >= d {
                    DPS_CHART_AUTO_FIT_IDLE_MS - d
                } else {
                    0
                };
            }
        }
        match self.last_auto_fit {
            Some(fit) => {
                let d = since_ms(fit, now);
                if DPS_CHART_AUTO_FIT_INTERVAL_MS >= d {
                    DPS_CHART_AUTO_FIT_INTERVAL_MS - d
                } else {
                    0
                }
            },
            None => 0,
        }
    }
}

impl Default for DpsChartViewState {
    fn default() -> (r: Self)
        ensures
            r == (DpsChartViewState { selected_epoch: None, last_user_interaction: None, last_auto_fit: None }),
    {
        DpsChartViewState::new()
    }
}

/// `value` cut to `limit` characters, with an ellipsis when something was
/// cut.
pub open spec fn spec_short_text(value: Seq<char>, limit: nat) -> Seq<char> {
    if value.len() > limit {
        value.take(limit as int).push('…')
    } else {
        value
    }
}

pub fn short_text(value: &str, limit: usize) -> (r: String)
    ensures
        r@ == spec_short_text(value@, limit as nat),
{
    let c = chars_of(value);
    if c.len() > limit {
        let mut out = crate::text::slice_chars(&c, 0, limit);
        out.push('…');
        string_of(&out)
    } else {
        string_of(&c)
    }
}

/// One row of the event log: an event and how often it repeated in a row.
#[derive(Debug, Clone)]
pub struct LogRow {
    pub time: String,
    pub level: EventLevel,
    pub message: String,
    pub repeats: u32,
}

pub struct RowView {
    pub time: Seq<char>,
    pub level: EventLevel,
    pub message: Seq<char>,
    pub repeats: u32,
}

pub open spec fn rows_view(v: Seq<LogRow>) -> Seq<RowView> {
    v.map_values(|r: LogRow| RowView { time: r.time@, level: r.level, message: r.message@, repeats: r.repeats })
}

/// The log after one event at `time`: a repeat of the last row is counted
/// on it; otherwise a row is appended and the oldest rows beyond two
/// hundred are dropped.
pub open spec fn pushed_rows(rows: Seq<RowView>, level: EventLevel, message: Seq<char>, time: Seq<char>) -> Seq<RowView> {
    if rows.len() > 0 && rows.last().message == message && rows.last().level == level {
        rows.update(
            rows.len() - 1,
            RowView {
                repeats: if rows.last().repeats == u32::MAX {
                    u32::MAX
                } else {
                    (rows.last().repeats + 1) as u32
                },
                ..rows.last()
            },
        )
    } else {
        let all = rows.push(RowView { time, level, message, repeats: 1 });
        if all.len() > MAX_LOG_ROWS {
            all.skip(all.len() - MAX_LOG_ROWS)
        } else {
            all
        }
    }
}

/// Adds an event to the log shown in the settings window.
pub fn push_log_row(logs: &mut Vec<LogRow>, level: EventLevel, message: String, time: String)
    ensures
        rows_view(final(logs)@) == pushed_rows(rows_view(old(logs)@), level, message@, time@),
{
    let ghost before = rows_view(logs@);
    let n = logs.len();
    if n > 0 {
        let a = chars_of(logs[n - 1].message.as_str());
        let b = chars_of(message.as_str());
        if chars_eq(&a, &b) && logs[n - 1].level == level {
            let last = &logs[n - 1];
            let bumped = LogRow {
                time: last.time.clone(),
                level: last.level,
                message: last.message.clone(),
                repeats: if last.repeats == u32::MAX {
                    u32::MAX
                } else {
                    last.repeats + 1
                },
            };
            logs.set(n - 1, bumped);
            assert(rows_view(logs@) =~= pushed_rows(before, level, message@, time@));
            return ;
        }
    }
    let ghost m = message@;
    let ghost t = time@;
    logs.push(LogRow { time, level, message, repeats: 1 });
    let ghost all = rows_view(logs@);
    assert(all =~= before.push(RowView { time: t, level, message: m, repeats: 1 }));
    if logs.len() > MAX_LOG_ROWS {
        let drop = logs.len() - MAX_LOG_ROWS;
        let mut kept: Vec<LogRow> = Vec::new();
        let mut i = drop;
        while i < logs.len()
            invariant
                drop <= i <= logs@.len(),
                all == rows_view(logs@),
                kept@.len() == i - drop,
                forall|k: int|
                    0 <= k < kept@.len() ==> #[trigger] rows_view(kept@)[k] == all[drop + k],
            decreases logs@.len() - i,
        {
            let r = &logs[i];
            let row = LogRow { time: r.time.clone(), level: r.level, message: r.message.clone(), repeats: r.repeats };
            let ghost prev = kept@;
            kept.push(row);
            proof {
                assert forall|k: int| 0 <= k < kept@.len() implies #[trigger] rows_view(kept@)[k] == all[drop + k] by {
                    if k < prev.len() {
                        assert(kept@[k] == prev[k]);
                        assert(rows_view(prev)[k] == all[drop + k]);
                    } else {
                        assert(kept@[k] == logs@[i as int] || rows_view(kept@)[k] == rows_view(logs@)[i as int]);
                    }
                }
            }
            i = i + 1;
        }
        assert(rows_view(kept@) =~= all.skip(drop as int));
        *logs = kept;
    }
}

/// Whether the message-template editor holds anything not yet applied: a
/// different active preset, live text, names or slots, or a live text that
/// differs from its own slot.
pub open spec fn spec_message_draft_changed(draft: crate::config::ConfigView, applied: crate::config::ConfigView) -> bool {
    let selected = draft.active_message_template_preset;
    draft.active_message_template_preset != applied.active_message_template_preset || draft.message_template
        != applied.message_template || draft.message_template_preset_names != applied.message_template_preset_names
        || !(selected < draft.message_template_presets.len() && draft.message_template_presets[selected as int]
        == draft.message_template) || draft.message_template_presets != applied.message_template_presets
}

pub open spec fn spec_report_draft_changed(draft: crate::config::ConfigView, applied: crate::config::ConfigView) -> bool {
    let selected = draft.active_round_report_template_preset;
    draft.active_round_report_template_preset != applied.active_round_report_template_preset
        || draft.round_report_template != applied.round_report_template
        || draft.round_report_template_preset_names != applied.round_report_template_preset_names
        || !(selected < draft.round_report_template_presets.len()
        && draft.round_report_template_presets[selected as int] == draft.round_report_template)
        || draft.round_report_template_presets != applied.round_report_template_presets
}

fn same_text(a: &String, b: &String) -> (r: bool)
    ensures
        r == (a@ == b@),
{
    let x = chars_of(a.as_str());
    let y = chars_of(b.as_str());
    chars_eq(&x, &y)
}

fn same_texts(a: &[String; 3], b: &[String; 3]) -> (r: bool)
    ensures
        r == (texts_view(a@) == texts_view(b@)),
{
    let r = same_text(&a[0], &b[0]) && same_text(&a[1], &b[1]) && same_text(&a[2], &b[2]);
    proof {
        if r {
            assert(texts_view(a@) =~= texts_view(b@));
        } else {
            if texts_view(a@) == texts_view(b@) {
                assert(texts_view(a@)[0] == texts_view(b@)[0]);
                assert(texts_view(a@)[1] == texts_view(b@)[1]);
                assert(texts_view(a@)[2] == texts_view(b@)[2]);
            }
        }
    }
    r
}

pub fn message_template_draft_changed(draft: &AppConfig, applied: &AppConfig) -> (r: bool)
    ensures
        r == spec_message_draft_changed(draft@, applied@),
{
    let selected = draft.active_message_template_preset;
    let slot_differs = if selected < 3 {
        !same_text(&draft.message_template_presets[selected], &draft.message_template)
    } else {
        true
    };
    draft.active_message_template_preset != applied.active_message_template_preset || !same_text(
        &draft.message_template,
        &applied.message_template,
    ) || !same_texts(&draft.message_template_preset_names, &applied.message_template_preset_names)
        || slot_differs || !same_texts(&draft.message_template_presets, &applied.message_template_presets)
}

pub fn report_template_draft_changed(draft: &AppConfig, applied: &AppConfig) -> (r: bool)
    ensures
        r == spec_report_draft_changed(draft@, applied@),
{
    let selected = draft.active_round_report_template_preset;
    let slot_differs = if selected < 3 {
        !same_text(&draft.round_report_template_presets[selected], &draft.round_report_template)
    } else {
        true
    };
    draft.active_round_report_template_preset != applied.active_round_report_template_preset
        || !same_text(&draft.round_report_template, &applied.round_report_template) || !same_texts(
        &draft.round_report_template_preset_names,
        &applied.round_report_template_preset_names,
    ) || slot_differs || !same_texts(&draft.round_report_template_presets, &applied.round_report_template_presets)
}


/// The label of a template preset: its trimmed name, or `Preset <n>` (one
/// based) in the user's language when the name is blank.
pub open spec fn spec_preset_display_name(name: Seq<char>, index: int, language: Language) -> Seq<char> {
    if trimmed(name).len() == 0 {
        patterned(
            catalog(Text::PresetFallback).spec_get(language)@,
            seq![("index"@, decimal_text((index + 1) as nat))],
        )
    } else {
        trimmed(name)
    }
}

/// The label of the template preset at `index`.
pub fn preset_display_name(name: &str, index: usize, language: Language) -> (r: String)
    requires
        index < usize::MAX,
    ensures
        r@ == spec_preset_display_name(name@, index as int, language),
{
    let c = chars_of(name);
    let t = trim(&c);
    if t.len() == 0 {
        let key = crate::text::owned("index");
        let replacements = vec![(key, decimal_string((index + 1) as u64))];
        assert(pairs_view(replacements@) =~= seq![("index"@, decimal_text((index + 1) as nat))]);
        format_pattern(text(Text::PresetFallback), language, &replacements)
    } else {
        string_of(&t)
    }
}

/// Preset tab labels are cut to this many characters.
pub const TEMPLATE_PRESET_TAB_LABEL_MAX_CHARS: usize = 13;

/// The tab labels of the presets, each shortened.
pub fn preset_tab_labels(names: &[String], language: Language) -> (r: Vec<String>)
    requires
        names@.len() < usize::MAX,
    ensures
        r@.len() == names@.len(),
        forall|i: int|
            0 <= i < names@.len() ==> #[trigger] r@[i]@ == spec_short_text(
                spec_preset_display_name(names@[i]@, i, language),
                TEMPLATE_PRESET_TAB_LABEL_MAX_CHARS as nat,
            ),
{
    let mut out: Vec<String> = Vec::new();
    let mut i: usize = 0;
    while i < names.len()
        invariant
            i <= names@.len() < usize::MAX,
            out@.len() == i,
            forall|k: int|
                0 <= k < i ==> #[trigger] out@[k]@ == spec_short_text(
                    spec_preset_display_name(names@[k]@, k, language),
                    TEMPLATE_PRESET_TAB_LABEL_MAX_CHARS as nat,
                ),
        decreases names@.len() - i,
    {
        let label = preset_display_name(names[i].as_str(), i, language);
        out.push(short_text(label.as_str(), TEMPLATE_PRESET_TAB_LABEL_MAX_CHARS));
        i = i + 1;
    }
    out
}

/// The start of a log-protocol diagnostic event in `language`.
pub open spec fn diagnostic_prefix(language: Language) -> Seq<char> {
    catalog(Text::LogProtocolDegraded).spec_get(language)@ + " ["@
}

/// Whether an event is a log-protocol diagnostic in either language; those
/// are shown only in developer mode.
pub open spec fn spec_is_protocol_diagnostic(message: Seq<char>) -> bool {
    diagnostic_prefix(Language::English).is_prefix_of(message) || diagnostic_prefix(
        Language::Chinese,
    ).is_prefix_of(message)
}

fn starts_with_prefix(message: &Vec<char>, language: Language) -> (r: bool)
    ensures
        r == diagnostic_prefix(language).is_prefix_of(message@),
{
    let mut prefix = chars_of(text(Text::LogProtocolDegraded).get(language));
    crate::text::append_str(&mut prefix, " [");
    if prefix.len() > message.len() {
        return false;
    }
    let r = crate::text::matches_at(message, 0, &prefix);
    assert(r == (message@.subrange(0, prefix@.len() as int) =~= prefix@));
    r
}

/// Whether an event is a log-protocol diagnostic.
pub fn is_protocol_diagnostic(message: &str) -> (r: bool)
    ensures
        r == spec_is_protocol_diagnostic(message@),
{
    let m = chars_of(message);
    starts_with_prefix(&m, Language::English) || starts_with_prefix(&m, Language::Chinese)
}

/// The configuration with the language-managed fields (language, templates,
/// presets and their names) taken from `localized`.
pub open spec fn with_language_fields(target: ConfigView, localized: ConfigView) -> ConfigView {
    ConfigView {
        language: localized.language,
        message_template: localized.message_template,
        message_template_presets: localized.message_template_presets,
        message_template_preset_names: localized.message_template_preset_names,
        round_report_template: localized.round_report_template,
        round_report_template_presets: localized.round_report_template_presets,
        round_report_template_preset_names: localized.round_report_template_preset_names,
        ..target
    }
}

fn copy_texts(a: &[String; 3]) -> (r: [String; 3])
    ensures
        texts_view(r@) == texts_view(a@),
{
    let r = [a[0].clone(), a[1].clone(), a[2].clone()];
    assert(texts_view(r@) =~= texts_view(a@));
    r
}

/// Takes the language-managed fields from `localized`; returns whether a
/// live template changed.
pub fn apply_language_managed_fields(target: &mut AppConfig, localized: &AppConfig) -> (r: bool)
    ensures
        r == (old(target).message_template@ != localized.message_template@
            || old(target).round_report_template@ != localized.round_report_template@),
        final(target)@ == with_language_fields(old(target)@, localized@),
{
    let changed = !same_text(&target.message_template, &localized.message_template) || !same_text(
        &target.round_report_template,
        &localized.round_report_template,
    );
    target.language = localized.language;
    target.message_template = localized.message_template.clone();
    target.message_template_presets = copy_texts(&localized.message_template_presets);
    target.message_template_preset_names = copy_texts(&localized.message_template_preset_names);
    target.round_report_template = localized.round_report_template.clone();
    target.round_report_template_presets = copy_texts(&localized.round_report_template_presets);
    target.round_report_template_preset_names = copy_texts(&localized.round_report_template_preset_names);
    changed
}

/// Switching the language twice in a row is the same as switching once to
/// the second language's fields: only the last localized fields remain.
pub proof fn law_language_fields_overwrite(target: ConfigView, first: ConfigView, second: ConfigView)
    ensures
        with_language_fields(with_language_fields(target, first), second) == with_language_fields(target, second),
{
}


/// Which context the template preview simulates.
#[derive(Debug, Clone, Copy, PartialEq, Eq, Structural)]
pub enum TemplatePreviewState {
    /// A combat round.
    Normal,
    /// The lobby after a round, with its report.
    RoundReport,
}

/// The example report shown when no round has been archived yet.
pub open spec fn example_report() -> RoundReport {
    RoundReport {
        has_duration_data: true,
        has_output_data: true,
        duration_seconds: 367,
        total_damage: 12480,
        average_dps: Ratio { numerator: 380, denominator: 10 },
        max_dps: 146,
        effective_dps: Ratio { numerator: 824, denominator: 10 },
        burst_10s_dps: Some(Ratio { numerator: 1267, denominator: 10 }),
        previous_effective_dps: Some(Ratio { numerator: 82400, denominator: 1184 }),
        damage_taken: 73,
        has_longest_standstill_data: true,
        longest_standstill_seconds: 74,
    }
}

/// The preview's combat values: the snapshot's own once it has damage data,
/// example values before.
pub open spec fn preview_combat(s: SnapshotView) -> SnapshotView {
    let b = SnapshotView { phase: RoundPhase::Combat, round_metrics_active: true, ..s };
    if s.has_damage_data {
        b
    } else {
        SnapshotView {
            has_damage_data: true,
            latest_dps: 128,
            average_dps: Ratio { numerator: 964, denominator: 10 },
            round_average_dps: Ratio { numerator: 921, denominator: 10 },
            round_effective_dps: Ratio { numerator: 1048, denominator: 10 },
            round_burst_10s_dps: Some(Ratio { numerator: 1462, denominator: 10 }),
            round_damage_taken: 24,
            max_dps: 173,
            has_max_dps_data: true,
            ..b
        }
    }
}

/// The preview's report values: the archived report (or the example) in the
/// lobby, with a step estimate.
pub open spec fn preview_report(s: SnapshotView, report: Option<RoundReport>) -> SnapshotView {
    let b = SnapshotView {
        phase: RoundPhase::Lobby,
        round_metrics_active: false,
        round_report: Some(
            match report {
                Some(r) => r,
                None => example_report(),
            },
        ),
        ..s
    };
    if s.has_step_estimate {
        b
    } else {
        SnapshotView { has_step_estimate: true, current_step: 10, until_boss_step: 1, ..b }
    }
}

/// The snapshot the template preview renders: never idle, and either a
/// combat round or the lobby with a report.
pub open spec fn spec_preview_snapshot(s: SnapshotView, state: TemplatePreviewState) -> SnapshotView {
    let base = SnapshotView { no_wasd_for_10s: false, round_report: None, ..s };
    match state {
        TemplatePreviewState::Normal => preview_combat(base),
        TemplatePreviewState::RoundReport => preview_report(base, s.round_report),
    }
}

fn fill_combat_example(p: &mut GameSnapshot)
    ensures
        final(p)@ == preview_combat(old(p)@),
{
    p.phase = RoundPhase::Combat;
    p.round_metrics_active = true;
    if !p.has_damage_data {
        p.has_damage_data = true;
        p.latest_dps = 128;
        p.average_dps = Ratio { numerator: 964, denominator: 10 };
        p.round_average_dps = Ratio { numerator: 921, denominator: 10 };
        p.round_effective_dps = Ratio { numerator: 1048, denominator: 10 };
        p.round_burst_10s_dps = Some(Ratio { numerator: 1462, denominator: 10 });
        p.round_damage_taken = 24;
        p.max_dps = 173;
        p.has_max_dps_data = true;
    }
}

fn fill_report_example(p: &mut GameSnapshot, report: Option<RoundReport>)
    ensures
        final(p)@ == preview_report(old(p)@, report),
{
    p.phase = RoundPhase::Lobby;
    p.round_metrics_active = false;
    p.round_report = Some(
        match report {
            Some(r) => r,
            None => RoundReport {
                has_duration_data: true,
                has_output_data: true,
                duration_seconds: 367,
                total_damage: 12480,
                average_dps: Ratio { numerator: 380, denominator: 10 },
                max_dps: 146,
                effective_dps: Ratio { numerator: 824, denominator: 10 },
                burst_10s_dps: Some(Ratio { numerator: 1267, denominator: 10 }),
                previous_effective_dps: Some(Ratio { numerator: 82400, denominator: 1184 }),
                damage_taken: 73,
                has_longest_standstill_data: true,
                longest_standstill_seconds: 74,
            },
        },
    );
    if !p.has_step_estimate {
        p.has_step_estimate = true;
        p.current_step = 10;
        p.until_boss_step = 1;
    }
}

/// The snapshot the template preview renders; the runtime snapshot is not
/// touched.
pub fn preview_snapshot_for_state(snapshot: &GameSnapshot, state: TemplatePreviewState) -> (r: GameSnapshot)
    ensures
        r@ == spec_preview_snapshot(snapshot@, state),
{
    let mut preview = snapshot.duplicate();
    preview.no_wasd_for_10s = false;
    preview.round_report = None;
    match state {
        TemplatePreviewState::Normal => fill_combat_example(&mut preview),
        TemplatePreviewState::RoundReport => fill_report_example(&mut preview, snapshot.round_report),
    }
    preview
}

} // verus!
