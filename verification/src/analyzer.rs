//! The analyzer: turns parsed log lines into a live [`GameSnapshot`].
use vstd::prelude::*;

use crate::analysis::{
    copy_issues, damage_refresh_m, danger_m, held_value, published, realtime_refresh_m,
    round_metrics_m, snapshot_m, DataQuality, AVERAGE_WINDOW_SECONDS, LATEST_DPS_HOLD_SECONDS,
    NO_DPS_WINDOW_SECONDS, RAPID_DAMAGE_DANGER_THRESHOLD, RAPID_DAMAGE_WINDOW_SECONDS,
    max_u64,
    boss_defeated_m, boss_object_matches, damage_taken_added_m, event_m, intermission_m,
    is_jim_final_phase, line_m, realtime_added_m, round_damage_added_m, run_ended_m, stage_m,
    with_baseline_m, with_boss_m, with_estimate, with_lock_m, with_phase_m, with_visit_m,
    StepEstimate,
    history_extended_m, next_previous, with_previous_m, with_report_m,
    archive_round_m, clear_boss_m, diagnostic_effect, discard_round_m, finish_round_m,
    finish_visit_m, has_issue, history_point, history_points, initial_model, issue_position,
    issue_recorded, issues_ordered, issues_view, record_diagnostic_m, report_of, reset_all_m,
    reset_combat_m, sat_add_i64, sat_sub_i64, span_seconds, start_round_m,
    start_untracked_round_m, total_at, update_history_m, burst_window_damage,
    effective_output_seconds, metric_end_exclusive, clamp_i64, AnalyzerModel, DataQualityIssue,
    DpsHistoryPoint, GameSnapshot, IssueView, Ratio, RoundPhase, RoundReport, SnapshotView,
    HISTORY_LIMIT_SECONDS,
};
use crate::log_protocol::{
    classify, timestamp_text, DiagnosticCode, LogParser, ParsedEvent, ParsedLine, ProtocolDiagnostic,
};
use crate::text::owned;
use crate::totals::{sat_add, sorted, SecondTotals};

verus! {

fn max_of(a: u64, b: u64) -> (r: u64)
    ensures
        r == max_u64(a, b),
{
    if a >= b {
        a
    } else {
        b
    }
}

fn or_second(o: Option<i64>, second: i64) -> (r: Option<i64>)
    ensures
        r == (match o {
            Some(s) => Some(s),
            None => Some(second),
        }),
{
    match o {
        Some(s) => Some(s),
        None => Some(second),
    }
}

fn sat_plus(a: u64, b: u64) -> (r: u64)
    ensures
        r == sat_add(a, b),
{
    if a > u64::MAX - b {
        u64::MAX
    } else {
        a + b
    }
}

/// A per-second value of the last complete second, held briefly after its
/// last non-zero value.
fn held(totals: &SecondTotals, last: Option<(i64, u64)>, last_complete: i64) -> (r: (
    u64,
    Option<(i64, u64)>,
))
    requires
        totals.wf(),
    ensures
        r == held_value(totals@, last, last_complete),
{
    match totals.get(last_complete) {
        Some(v) => (v, if v > 0 {
            Some((last_complete, v))
        } else {
            last
        }),
        None => {
            let value = match last {
                Some(p) => if sat_sub_i64(last_complete, p.0) <= LATEST_DPS_HOLD_SECONDS {
                    p.1
                } else {
                    0
                },
                None => 0,
            };
            (value, last)
        },
    }
}

/// The points of the seconds `first..=through` appended to `history`.
fn extend_history(
    mut history: Vec<DpsHistoryPoint>,
    realtime: &SecondTotals,
    epoch: u64,
    step: Option<u32>,
    first: i64,
    through: i64,
    start: i64,
) -> (r: Vec<DpsHistoryPoint>)
    requires
        realtime.wf(),
    ensures
        r@ == history@ + history_points(
            realtime@,
            epoch,
            step,
            first,
            if first <= through {
                through - first + 1
            } else {
                0
            },
            start,
        ),
{
    reveal(history_points);
    let ghost base = history@;
    if first <= through {
        let mut sec = first;
        while sec < through
            invariant
                first <= sec <= through,
                realtime.wf(),
                history@ == base + history_points(realtime@, epoch, step, first, sec - first, start),
            decreases through - sec,
        {
            reveal(history_points);
            let point = point_at(realtime, epoch, step, sec, start);
            history.push(point);
            assert(history@ =~= base + history_points(realtime@, epoch, step, first, sec + 1 - first, start));
            sec = sec + 1;
        }
        let point = point_at(realtime, epoch, step, through, start);
        history.push(point);
        assert(history@ =~= base + history_points(realtime@, epoch, step, first, through - first + 1, start));
    } else {
        assert(history@ =~= base + history_points(realtime@, epoch, step, first, 0, start));
    }
    history
}

fn point_at(realtime: &SecondTotals, epoch: u64, step: Option<u32>, second: i64, start: i64) -> (r:
    DpsHistoryPoint)
    requires
        realtime.wf(),
    ensures
        r == history_point(realtime@, epoch, step, second, start),
{
    let dps = match realtime.get(second) {
        Some(v) => v,
        None => 0,
    };
    let diff = sat_sub_i64(second, start);
    DpsHistoryPoint { elapsed_seconds: diff as u64, dps, combat_round_epoch: epoch, estimated_step: step }
}

// ---------------------------------------------------------------------------
// The analyzer
// ---------------------------------------------------------------------------

/// Turns log lines into a live [`GameSnapshot`].
pub struct Analyzer {
    parser: LogParser,
    snapshot: GameSnapshot,
    realtime_damage_by_second: SecondTotals,
    damage_by_second: SecondTotals,
    round_damage_by_second: SecondTotals,
    damage_taken_by_second: SecondTotals,
    last_nonzero_dps: Option<(i64, u64)>,
    last_nonzero_realtime_dps: Option<(i64, u64)>,
    dps_idle_since: Option<i64>,
    round_first_damage_second: Option<i64>,
    round_started_second: Option<i64>,
    round_damage_total: u64,
    round_damage_taken_total: u64,
    round_max_dps: u64,
    round_baseline_ready: bool,
    visit_started_second: Option<i64>,
    history_through_second: Option<i64>,
    previous_round_effective_dps: Option<Ratio>,
    protocol_issues: Vec<DataQualityIssue>,
    degraded: bool,
    pending_protocol_diagnostics: Vec<ProtocolDiagnostic>,
}

pub open spec fn pending_view(v: Seq<ProtocolDiagnostic>) -> Seq<(DiagnosticCode, Seq<char>)> {
    v.map_values(|d: ProtocolDiagnostic| (d.code, d.message@))
}

/// `span_seconds` computed.
fn span(start: Option<i64>, second: i64) -> (r: u64)
    ensures
        r == span_seconds(start, second),
{
    match start {
        Some(s) => {
            let d = sat_sub_i64(second, s);
            if d < 1 {
                1
            } else {
                d as u64
            }
        },
        None => 1,
    }
}

impl View for Analyzer {
    type V = AnalyzerModel;

    closed spec fn view(&self) -> AnalyzerModel {
        AnalyzerModel {
            snapshot: self.snapshot@,
            realtime: self.realtime_damage_by_second@,
            damage: self.damage_by_second@,
            round_damage: self.round_damage_by_second@,
            taken: self.damage_taken_by_second@,
            last_nonzero_dps: self.last_nonzero_dps,
            last_nonzero_realtime_dps: self.last_nonzero_realtime_dps,
            dps_idle_since: self.dps_idle_since,
            round_first_damage_second: self.round_first_damage_second,
            round_started_second: self.round_started_second,
            round_damage_total: self.round_damage_total,
            round_damage_taken_total: self.round_damage_taken_total,
            round_max_dps: self.round_max_dps,
            round_baseline_ready: self.round_baseline_ready,
            visit_started_second: self.visit_started_second,
            history_through_second: self.history_through_second,
            previous_round_effective_dps: self.previous_round_effective_dps,
            degraded: self.degraded,
            issues: issues_view(self.protocol_issues@),
            pending: pending_view(self.pending_protocol_diagnostics@),
        }
    }
}

/// Well-formedness of the model: buckets sorted by second and issues
/// ordered by code.
pub open spec fn model_wf(m: AnalyzerModel) -> bool {
    &&& sorted(m.realtime)
    &&& sorted(m.damage)
    &&& sorted(m.round_damage)
    &&& sorted(m.taken)
    &&& issues_ordered(m.issues)
}

proof fn lemma_issue_position(s: Seq<IssueView>, code: DiagnosticCode)
    requires
        issues_ordered(s),
    ensures
        0 <= issue_position(s, code) <= s.len(),
        forall|k: int| 0 <= k < issue_position(s, code) ==> #[trigger] s[k].code.rank() < code.rank(),
        forall|k: int|
            issue_position(s, code) <= k < s.len() ==> #[trigger] s[k].code.rank() >= code.rank(),
    decreases s.len(),
{
    reveal(issues_ordered);
    if s.len() > 0 {
        if s.last().code.rank() < code.rank() {
            assert forall|k: int| 0 <= k < s.len() implies #[trigger] s[k].code.rank() < code.rank() by {
                if k < s.len() - 1 {
                    assert(s[k].code.rank() < s[s.len() - 1].code.rank());
                }
            }
        } else {
            let t = s.drop_last();
            lemma_issue_position(t, code);
            assert forall|k: int| 0 <= k < issue_position(s, code) implies #[trigger] s[k].code.rank() < code.rank() by {
                assert(s[k] == t[k]);
            }
            assert forall|k: int| issue_position(s, code) <= k < s.len() implies #[trigger] s[k].code.rank() >= code.rank() by {
                if k < s.len() - 1 {
                    assert(s[k] == t[k]);
                }
            }
        }
    }
}

proof fn lemma_issue_recorded(s: Seq<IssueView>, code: DiagnosticCode, message: Seq<char>)
    requires
        issues_ordered(s),
    ensures
        issues_ordered(issue_recorded(s, code, message)),
        has_issue(s, code) <==> ({
            let i = issue_position(s, code);
            i < s.len() && s[i].code == code
        }),
{
    reveal(issues_ordered);
    reveal(has_issue);
    reveal(issue_recorded);
    lemma_issue_position(s, code);
    let i = issue_position(s, code);
    if has_issue(s, code) {
        let k = choose|k: int| 0 <= k < s.len() && s[k].code == code;
        if k < i {
        } else if k > i {
            assert(s[i].code.rank() < s[k].code.rank());
        }
    }
    let r = issue_recorded(s, code, message);
    if i < s.len() && s[i].code == code {
        assert forall|a: int, b: int| 0 <= a < b < r.len() implies r[a].code.rank() < r[b].code.rank() by {
            assert(r[a].code == s[a].code);
            assert(r[b].code == s[b].code);
        }
    } else {
        assert forall|a: int, b: int| 0 <= a < b < r.len() implies r[a].code.rank() < r[b].code.rank() by {
            if b < i {
            } else if b == i {
            } else if a < i {
                assert(r[b] == s[b - 1]);
            } else if a == i {
                assert(r[b] == s[b - 1]);
                if s[i].code.rank() == code.rank() {
                    assert(s[i].code == code);
                }
            } else {
                assert(r[a] == s[a - 1]);
                assert(r[b] == s[b - 1]);
            }
        }
    }
}

/// Counts one occurrence of `code` in the ordered aggregate; returns whether
/// it is the first.
fn record_issue(mut issues: Vec<DataQualityIssue>, code: DiagnosticCode, message: &String) -> (r: (
    Vec<DataQualityIssue>,
    bool,
))
    requires
        issues_ordered(issues_view(issues@)),
    ensures
        issues_ordered(issues_view(r.0@)),
        issues_view(r.0@) == issue_recorded(issues_view(issues@), code, message@),
        r.1 == !has_issue(issues_view(issues@), code),
{
    let ghost s = issues_view(issues@);
    proof {
        lemma_issue_recorded(s, code, message@);
        lemma_issue_position(s, code);
        reveal(issues_ordered);
        reveal(issue_recorded);
    }
    let n = issues.len();
    let mut i: usize = n;
    while i > 0 && issues[i - 1].code.order() >= code.order()
        invariant
            i <= n,
            n == s.len(),
            s == issues_view(issues@),
            issues_ordered(s),
            forall|k: int| i <= k < n ==> #[trigger] s[k].code.rank() >= code.rank(),
        decreases i,
    {
        i = i - 1;
    }
    proof {
        let p = issue_position(s, code);
        if i > 0 {
            assert(s[i - 1].code.rank() < code.rank());
        }
        if p < i {
            assert(s[i - 1].code.rank() >= code.rank());
        }
        if p > i {
            assert(s[i as int].code.rank() < code.rank());
        }
    }
    let found = i < n && issues[i].code == code;
    if found {
        let current = &issues[i];
        let bumped = DataQualityIssue {
            code: current.code,
            message: current.message.clone(),
            occurrences: if current.occurrences == u64::MAX {
                u64::MAX
            } else {
                current.occurrences + 1
            },
        };
        issues.set(i, bumped);
    } else {
        let fresh = DataQualityIssue { code, message: message.clone(), occurrences: 1 };
        issues.insert(i, fresh);
    }
    assert(issues_view(issues@) =~= issue_recorded(s, code, message@));
    (issues, !found)
}

impl Analyzer {
    pub closed spec fn wf(&self) -> bool {
        &&& self.realtime_damage_by_second.wf()
        &&& self.damage_by_second.wf()
        &&& self.round_damage_by_second.wf()
        &&& self.damage_taken_by_second.wf()
        &&& issues_ordered(issues_view(self.protocol_issues@))
    }

    /// An analyzer that has seen nothing.
    pub fn new() -> (r: Self)
        ensures
            r.wf(),
            r@ == initial_model(),
    {
        let r = Analyzer {
            parser: LogParser {  },
            snapshot: GameSnapshot::new(),
            realtime_damage_by_second: SecondTotals::new(),
            damage_by_second: SecondTotals::new(),
            round_damage_by_second: SecondTotals::new(),
            damage_taken_by_second: SecondTotals::new(),
            last_nonzero_dps: None,
            last_nonzero_realtime_dps: None,
            dps_idle_since: None,
            round_first_damage_second: None,
            round_started_second: None,
            round_damage_total: 0,
            round_damage_taken_total: 0,
            round_max_dps: 0,
            round_baseline_ready: false,
            visit_started_second: None,
            history_through_second: None,
            previous_round_effective_dps: None,
            protocol_issues: Vec::new(),
            degraded: false,
            pending_protocol_diagnostics: Vec::new(),
        };
        assert(issues_view(r.protocol_issues@) =~= Seq::empty());
        assert(pending_view(r.pending_protocol_diagnostics@) =~= Seq::empty());
        reveal(issues_ordered);
        assert(r@ =~= initial_model());
        r
    }

    fn clear_boss(&mut self)
        requires
            old(self).wf(),
        ensures
            final(self).wf(),
            final(self)@ == clear_boss_m(old(self)@),
    {
        self.snapshot.boss_active = false;
        self.snapshot.boss = None;
        self.snapshot.boss_lock = None;
        assert(self@ == clear_boss_m(old(self)@));
    }

    #[verifier::rlimit(40)]
    fn apply_diagnostic_effect(&mut self, code: DiagnosticCode)
        requires
            old(self).wf(),
        ensures
            final(self).wf(),
            final(self)@ == diagnostic_effect(old(self)@, code),
    {
        reveal(diagnostic_effect);
        match code {
            DiagnosticCode::Damage => {
                self.snapshot.has_damage_data = false;
                self.snapshot.has_realtime_dps_data = false;
                self.snapshot.latest_dps = 0;
                self.snapshot.realtime_dps = 0;
                assert(self@ == diagnostic_effect(old(self)@, code));
            },
            DiagnosticCode::Boss => self.clear_boss(),
            DiagnosticCode::BossDefeated => self.clear_boss(),
            DiagnosticCode::Ownership => {
                self.snapshot.boss_lock = None;
                assert(self@ == diagnostic_effect(old(self)@, code));
            },
            _ => {},
        }
    }

    fn record_protocol_diagnostic(&mut self, diagnostic: ProtocolDiagnostic)
        requires
            old(self).wf(),
        ensures
            final(self).wf(),
            final(self)@ == record_diagnostic_m(old(self)@, diagnostic.code, diagnostic.message@),
    {
        let code = diagnostic.code;
        self.apply_diagnostic_effect(code);
        let ghost m1 = self@;
        let ghost before = self.pending_protocol_diagnostics@;
        let mut taken: Vec<DataQualityIssue> = Vec::new();
        std::mem::swap(&mut taken, &mut self.protocol_issues);
        let (updated, fresh) = record_issue(taken, code, &diagnostic.message);
        self.protocol_issues = updated;
        if fresh {
            self.pending_protocol_diagnostics.push(diagnostic);
            assert(pending_view(self.pending_protocol_diagnostics@) =~= pending_view(before).push(
                (code, diagnostic.message@),
            ));
        }
        self.degraded = true;
        let ghost target = record_diagnostic_m(old(self)@, code, diagnostic.message@);
        assert(self@.pending == target.pending);
        assert(self@.issues == target.issues);
        assert(self@ == target);
    }

    #[verifier::rlimit(40)]
    fn reset_combat(&mut self)
        requires
            old(self).wf(),
        ensures
            final(self).wf(),
            final(self)@ == reset_combat_m(old(self)@),
    {
        let peak = if self.round_max_dps > self.snapshot.max_dps {
            self.round_max_dps
        } else {
            self.snapshot.max_dps
        };
        self.snapshot.max_dps = peak;
        self.damage_by_second = SecondTotals::new();
        self.round_damage_by_second = SecondTotals::new();
        self.damage_taken_by_second = SecondTotals::new();
        self.last_nonzero_dps = None;
        self.dps_idle_since = None;
        self.round_first_damage_second = None;
        self.round_started_second = None;
        self.round_damage_total = 0;
        self.round_damage_taken_total = 0;
        self.round_max_dps = 0;
        self.snapshot.latest_dps = 0;
        self.snapshot.average_dps = Ratio { numerator: 0, denominator: 1 };
        self.snapshot.round_average_dps = Ratio { numerator: 0, denominator: 1 };
        self.snapshot.round_effective_dps = Ratio { numerator: 0, denominator: 1 };
        self.snapshot.round_burst_10s_dps = None;
        self.snapshot.round_damage_taken = 0;
        self.snapshot.has_damage_data = false;
        self.snapshot.rapid_damage_danger = false;
        self.snapshot.no_dps_for_10s = false;
        self.snapshot.round_metrics_active = false;
        self.snapshot.has_step_estimate = false;
        self.snapshot.current_step = 0;
        self.snapshot.until_boss_step = 0;
        self.clear_boss();
        assert(self@ == reset_combat_m(old(self)@));
    }

    /// Clears everything of the visit: buckets, history, report, diagnostics.
    pub fn reset_all(&mut self)
        requires
            old(self).wf(),
        ensures
            final(self).wf(),
            final(self)@ == reset_all_m(old(self)@),
    {
        self.reset_combat();
        self.realtime_damage_by_second = SecondTotals::new();
        self.last_nonzero_realtime_dps = None;
        self.snapshot.realtime_dps = 0;
        self.snapshot.has_realtime_dps_data = false;
        self.snapshot.dps_history = Vec::new();
        self.snapshot.max_dps = 0;
        self.snapshot.has_max_dps_data = false;
        self.snapshot.round_report = None;
        self.snapshot.in_ecliptica = false;
        self.snapshot.phase = RoundPhase::Outside;
        self.round_baseline_ready = false;
        self.visit_started_second = None;
        self.history_through_second = None;
        self.previous_round_effective_dps = None;
        self.protocol_issues = Vec::new();
        self.degraded = false;
        self.pending_protocol_diagnostics = Vec::new();
        proof {
            reveal(issues_ordered);
        }
        assert(issues_view(self.protocol_issues@) =~= Seq::empty());
        assert(pending_view(self.pending_protocol_diagnostics@) =~= Seq::empty());
        assert(self.snapshot.dps_history@ =~= Seq::empty());
        assert(self@ == reset_all_m(old(self)@));
    }

    /// Returns the diagnostics seen for the first time since the last call;
    /// the aggregated issues stay.
    pub fn take_protocol_diagnostics(&mut self) -> (r: Vec<ProtocolDiagnostic>)
        requires
            old(self).wf(),
        ensures
            final(self).wf(),
            pending_view(r@) == old(self)@.pending,
            final(self)@ == (AnalyzerModel { pending: Seq::empty(), ..old(self)@ }),
    {
        let mut r: Vec<ProtocolDiagnostic> = Vec::new();
        std::mem::swap(&mut r, &mut self.pending_protocol_diagnostics);
        assert(pending_view(self.pending_protocol_diagnostics@) =~= Seq::empty());
        assert(self@ == (AnalyzerModel { pending: Seq::empty(), ..old(self)@ }));
        r
    }

    fn start_round(&mut self, second: i64)
        requires
            old(self).wf(),
        ensures
            final(self).wf(),
            final(self)@ == start_round_m(old(self)@, second),
    {
        self.reset_combat();
        self.snapshot.combat_round_epoch = if self.snapshot.combat_round_epoch == u64::MAX {
            1
        } else {
            self.snapshot.combat_round_epoch + 1
        };
        self.snapshot.round_report = None;
        self.snapshot.round_metrics_active = true;
        self.round_started_second = Some(second);
        self.dps_idle_since = Some(second);
        assert(self@ == start_round_m(old(self)@, second));
    }

    fn start_untracked_round(&mut self)
        requires
            old(self).wf(),
        ensures
            final(self).wf(),
            final(self)@ == start_untracked_round_m(old(self)@),
    {
        self.reset_combat();
        self.snapshot.combat_round_epoch = if self.snapshot.combat_round_epoch == u64::MAX {
            1
        } else {
            self.snapshot.combat_round_epoch + 1
        };
        self.snapshot.round_report = None;
        assert(self@ == start_untracked_round_m(old(self)@));
    }


    fn build_report(&self, second: i64) -> (r: RoundReport)
        ensures
            r == report_of(self@, second),
    {
        reveal(report_of);
        let end = metric_end_exclusive(&self.round_damage_by_second, second);
        let eff_raw = effective_output_seconds(&self.round_damage_by_second, end);
        let eff = if eff_raw < 1 {
            1
        } else {
            eff_raw
        };
        let burst = match burst_window_damage(
            &self.round_damage_by_second,
            self.round_first_damage_second,
            end,
        ) {
            Some(w) => Some(Ratio { numerator: w, denominator: 10 }),
            None => None,
        };
        let previous = if self.round_first_damage_second.is_some() {
            match self.previous_round_effective_dps {
                Some(p) => if p.numerator > 0 {
                    Some(p)
                } else {
                    None
                },
                None => None,
            }
        } else {
            None
        };
        RoundReport {
            has_duration_data: self.round_started_second.is_some(),
            has_output_data: self.round_first_damage_second.is_some(),
            duration_seconds: span(self.round_started_second, second),
            total_damage: self.round_damage_total,
            average_dps: Ratio {
                numerator: self.round_damage_total,
                denominator: span(self.round_first_damage_second, second),
            },
            max_dps: self.round_max_dps,
            effective_dps: Ratio { numerator: self.round_damage_total, denominator: eff },
            burst_10s_dps: burst,
            previous_effective_dps: previous,
            damage_taken: self.round_damage_taken_total,
            has_longest_standstill_data: false,
            longest_standstill_seconds: 0,
        }
    }

    fn set_report(&mut self, report: Option<RoundReport>)
        requires
            old(self).wf(),
        ensures
            final(self).wf(),
            final(self)@ == with_report_m(old(self)@, report),
    {
        self.snapshot.round_report = report;
    }

    fn set_previous(&mut self, previous: Option<Ratio>)
        requires
            old(self).wf(),
        ensures
            final(self).wf(),
            final(self)@ == with_previous_m(old(self)@, previous),
    {
        self.previous_round_effective_dps = previous;
    }

    fn archive_round(&mut self, second: i64)
        requires
            old(self).wf(),
        ensures
            final(self).wf(),
            final(self)@ == archive_round_m(old(self)@, second),
    {
        let report = self.build_report(second);
        let previous = if self.round_started_second.is_some() {
            if self.round_first_damage_second.is_some() {
                Some(report.effective_dps)
            } else {
                None
            }
        } else {
            self.previous_round_effective_dps
        };
        assert(previous == next_previous(old(self)@, report));
        self.set_report(Some(report));
        self.set_previous(previous);
    }

    fn discard_round(&mut self)
        requires
            old(self).wf(),
        ensures
            final(self).wf(),
            final(self)@ == discard_round_m(old(self)@),
    {
        let started = self.round_started_second.is_some();
        self.set_report(None);
        if started {
            self.set_previous(None);
            let message = owned(
                "完整阶段内未观察到输出或承伤日志；数值按 0/未知处理（可能确实无伤害，也可能是游戏停止打印相关日志）",
            );
            self.record_protocol_diagnostic(
                ProtocolDiagnostic { code: DiagnosticCode::CombatMetricsMissing, message },
            );
        }
    }

    fn finish_round(&mut self, second: i64)
        requires
            old(self).wf(),
        ensures
            final(self).wf(),
            final(self)@ == finish_round_m(old(self)@, second),
    {
        if self.round_first_damage_second.is_some() || self.round_damage_taken_total > 0 {
            self.archive_round(second);
        } else {
            self.discard_round();
        }
        self.reset_combat();
    }

    fn extend_history_to(&mut self, through: i64, start: i64, first: i64)
        requires
            old(self).wf(),
        ensures
            final(self).wf(),
            final(self)@ == history_extended_m(old(self)@, through, start, first),
    {
        let combat = match self.snapshot.phase {
            RoundPhase::Combat => true,
            _ => false,
        };
        let epoch = if combat {
            self.snapshot.combat_round_epoch
        } else {
            0
        };
        let step = if combat && self.snapshot.has_step_estimate {
            Some(self.snapshot.current_step)
        } else {
            None
        };
        let mut history: Vec<DpsHistoryPoint> = Vec::new();
        std::mem::swap(&mut history, &mut self.snapshot.dps_history);
        let extended = extend_history(
            history,
            &self.realtime_damage_by_second,
            epoch,
            step,
            first,
            through,
            start,
        );
        self.snapshot.dps_history = extended;
        self.history_through_second = Some(through);
        assert(self@ == history_extended_m(old(self)@, through, start, first));
    }

    fn update_dps_history(&mut self, through: i64)
        requires
            old(self).wf(),
        ensures
            final(self).wf(),
            final(self)@ == update_history_m(old(self)@, through),
    {
        match self.visit_started_second {
            Some(start) => {
                if !(through < start || sat_sub_i64(through, start) > HISTORY_LIMIT_SECONDS) {
                    let first = match self.history_through_second {
                        Some(last) => sat_add_i64(last, 1),
                        None => start,
                    };
                    self.extend_history_to(through, start, first);
                }
            },
            None => {},
        }
    }

    fn finish_visit(&mut self, second: i64)
        requires
            old(self).wf(),
        ensures
            final(self).wf(),
            final(self)@ == finish_visit_m(old(self)@, second),
    {
        self.update_dps_history(second);
        let ghost m1 = self@;
        let mut history: Vec<DpsHistoryPoint> = Vec::new();
        std::mem::swap(&mut history, &mut self.snapshot.dps_history);
        let mut issues: Vec<DataQualityIssue> = Vec::new();
        std::mem::swap(&mut issues, &mut self.protocol_issues);
        let mut pending: Vec<ProtocolDiagnostic> = Vec::new();
        std::mem::swap(&mut pending, &mut self.pending_protocol_diagnostics);
        let degraded = self.degraded;
        proof {
            reveal(issues_ordered);
        }
        assert(issues_view(self.protocol_issues@) =~= Seq::empty());
        self.reset_all();
        let ghost m2 = self@;
        assert(m2 == reset_all_m(m1));
        self.snapshot.dps_history = history;
        self.protocol_issues = issues;
        self.pending_protocol_diagnostics = pending;
        self.degraded = degraded;
        assert(self@ == finish_visit_m(old(self)@, second));
    }


    #[verifier::rlimit(40)]
    fn set_phase(&mut self, in_ecliptica: bool, phase: RoundPhase)
        requires
            old(self).wf(),
        ensures
            final(self).wf(),
            final(self)@ == with_phase_m(old(self)@, in_ecliptica, phase),
    {
        self.snapshot.in_ecliptica = in_ecliptica;
        self.snapshot.phase = phase;
    }

    fn set_baseline(&mut self, ready: bool)
        requires
            old(self).wf(),
        ensures
            final(self).wf(),
            final(self)@ == with_baseline_m(old(self)@, ready),
    {
        self.round_baseline_ready = ready;
    }

    fn set_visit(&mut self, second: i64)
        requires
            old(self).wf(),
        ensures
            final(self).wf(),
            final(self)@ == with_visit_m(old(self)@, second),
    {
        self.visit_started_second = Some(second);
    }

    fn apply_estimate(&mut self, estimate: Option<StepEstimate>)
        requires
            old(self).wf(),
        ensures
            final(self).wf(),
            final(self)@ == with_estimate(old(self)@, estimate),
    {
        match estimate {
            Some(e) => {
                self.snapshot.has_step_estimate = true;
                self.snapshot.current_step = e.current;
                self.snapshot.until_boss_step = e.until_boss;
            },
            None => {},
        }
    }

    fn end_run(&mut self)
        requires
            old(self).wf(),
        ensures
            final(self).wf(),
            final(self)@ == run_ended_m(old(self)@),
    {
        self.snapshot.phase = RoundPhase::Lobby;
        self.snapshot.has_step_estimate = false;
        self.snapshot.current_step = 0;
        self.snapshot.until_boss_step = 0;
    }

    fn set_boss(&mut self, name: String)
        requires
            old(self).wf(),
        ensures
            final(self).wf(),
            final(self)@ == with_boss_m(old(self)@, name@),
    {
        self.snapshot.in_ecliptica = true;
        self.snapshot.phase = RoundPhase::Combat;
        self.snapshot.boss_active = true;
        self.snapshot.boss_lock = None;
        self.snapshot.boss = Some(name);
    }

    fn set_lock(&mut self, player: String)
        requires
            old(self).wf(),
        ensures
            final(self).wf(),
            final(self)@ == with_lock_m(old(self)@, player@),
    {
        self.snapshot.boss_lock = Some(player);
    }

    fn add_realtime(&mut self, second: i64, amount: u64)
        requires
            old(self).wf(),
        ensures
            final(self).wf(),
            final(self)@ == realtime_added_m(old(self)@, second, amount),
    {
        let mut totals = SecondTotals::new();
        std::mem::swap(&mut totals, &mut self.realtime_damage_by_second);
        totals.add(second, amount);
        self.realtime_damage_by_second = totals;
        self.snapshot.has_realtime_dps_data = true;
    }

    fn add_round_damage(&mut self, second: i64, amount: u64)
        requires
            old(self).wf(),
        ensures
            final(self).wf(),
            final(self)@ == round_damage_added_m(old(self)@, second, amount),
    {
        let mut damage = SecondTotals::new();
        std::mem::swap(&mut damage, &mut self.damage_by_second);
        let second_total = damage.add(second, amount);
        self.damage_by_second = damage;
        let mut round = SecondTotals::new();
        std::mem::swap(&mut round, &mut self.round_damage_by_second);
        round.add(second, amount);
        self.round_damage_by_second = round;
        let peak = max_of(self.round_max_dps, second_total);
        let started = or_second(self.round_started_second, second);
        let first = or_second(self.round_first_damage_second, second);
        let total = sat_plus(self.round_damage_total, amount);
        self.dps_idle_since = Some(second);
        self.snapshot.has_damage_data = true;
        self.snapshot.has_max_dps_data = true;
        self.round_max_dps = peak;
        self.round_started_second = started;
        self.round_first_damage_second = first;
        self.round_damage_total = total;
    }

    #[verifier::rlimit(40)]
    fn add_damage_taken(&mut self, second: i64, amount: u64)
        requires
            old(self).wf(),
        ensures
            final(self).wf(),
            final(self)@ == damage_taken_added_m(old(self)@, second, amount),
    {
        let mut taken = SecondTotals::new();
        std::mem::swap(&mut taken, &mut self.damage_taken_by_second);
        taken.add(second, amount);
        self.damage_taken_by_second = taken;
        self.round_damage_taken_total = if self.round_damage_taken_total > u64::MAX - amount {
            u64::MAX
        } else {
            self.round_damage_taken_total + amount
        };
        self.snapshot.round_damage_taken = self.round_damage_taken_total;
    }

    fn on_stage(&mut self, second: i64, estimate: Option<StepEstimate>)
        requires
            old(self).wf(),
        ensures
            final(self).wf(),
            final(self)@ == stage_m(old(self)@, second, estimate),
    {
        self.update_dps_history(sat_sub_i64(second, 1));
        if self.snapshot.phase == RoundPhase::Combat && self.round_started_second.is_some() {
            let message = owned(
                "战斗中直接观察到下一阶段，未观察到 intermission/lobby 日志；上一回合按不完整数据丢弃并安全开始新回合",
            );
            self.record_protocol_diagnostic(
                ProtocolDiagnostic { code: DiagnosticCode::IntermissionMissing, message },
            );
        }
        if self.round_baseline_ready {
            self.start_round(second);
        } else {
            self.start_untracked_round();
        }
        self.apply_estimate(estimate);
        self.set_phase(true, RoundPhase::Combat);
        self.set_baseline(false);
    }

    fn on_intermission(&mut self, second: i64, estimate: Option<StepEstimate>)
        requires
            old(self).wf(),
        ensures
            final(self).wf(),
            final(self)@ == intermission_m(old(self)@, second, estimate),
    {
        self.update_dps_history(sat_sub_i64(second, 1));
        if self.snapshot.round_metrics_active {
            self.finish_round(second);
            self.apply_estimate(estimate);
        } else {
            self.reset_combat();
        }
        self.set_phase(true, RoundPhase::Lobby);
        self.set_baseline(true);
    }

    fn on_boss_defeated(&mut self, second: i64, name: &str)
        requires
            old(self).wf(),
        ensures
            final(self).wf(),
            final(self)@ == boss_defeated_m(old(self)@, second, name@),
    {
        if self.snapshot.phase == RoundPhase::Combat && is_jim_final_phase(name) {
            self.update_dps_history(sat_sub_i64(second, 1));
            if self.snapshot.round_metrics_active {
                self.finish_round(second);
            } else {
                self.reset_combat();
            }
            self.end_run();
            self.set_baseline(true);
        } else {
            let matches = match &self.snapshot.boss {
                Some(b) => boss_object_matches(b.as_str(), name),
                None => false,
            };
            if matches {
                self.clear_boss();
            }
        }
    }

    fn process_event(&mut self, event: ParsedEvent, estimate: Option<StepEstimate>)
        requires
            old(self).wf(),
        ensures
            final(self).wf(),
            final(self)@ == event_m(old(self)@, event.view(), estimate),
    {
        match event {
            ParsedEvent::EnterEcliptica { second } => {
                self.reset_all();
                self.set_phase(true, RoundPhase::Syncing);
                self.set_visit(second);
            },
            ParsedEvent::LeaveRoom { second } => {
                self.finish_visit(second);
            },
            ParsedEvent::Stage { second, phase: _ } => {
                self.on_stage(second, estimate);
            },
            ParsedEvent::Intermission { second } => {
                self.on_intermission(second, estimate);
            },
            ParsedEvent::Boss { second: _, name } => {
                if self.snapshot.phase != RoundPhase::Lobby {
                    self.set_boss(name);
                }
            },
            ParsedEvent::BossDefeated { second, name } => {
                self.on_boss_defeated(second, name.as_str());
            },
            ParsedEvent::Ownership { object, player } => {
                let matches = match &self.snapshot.boss {
                    Some(b) => self.snapshot.boss_active && boss_object_matches(
                        b.as_str(),
                        object.as_str(),
                    ),
                    None => false,
                };
                if matches {
                    self.set_lock(player);
                }
            },
            ParsedEvent::Damage { second, amount } => {
                if self.snapshot.in_ecliptica {
                    self.add_realtime(second, amount);
                }
                if self.snapshot.in_ecliptica && self.snapshot.round_metrics_active {
                    self.add_round_damage(second, amount);
                }
            },
            ParsedEvent::DamageTaken { second, amount } => {
                if self.snapshot.in_ecliptica && self.snapshot.round_metrics_active {
                    self.add_damage_taken(second, amount);
                }
            },
        }
    }

    /// Applies one parsed line: its diagnostic first, then its event.
    /// `estimate` is the step estimate after a stage or lobby event of the
    /// line has been observed; other events ignore it.
    pub fn process_parsed(&mut self, parsed: ParsedLine, estimate: Option<StepEstimate>)
        requires
            old(self).wf(),
        ensures
            final(self).wf(),
            final(self)@ == line_m(old(self)@, parsed@, estimate),
    {
        let ParsedLine { event, diagnostic } = parsed;
        match diagnostic {
            Some(d) => self.record_protocol_diagnostic(d),
            None => {},
        }
        match event {
            Some(e) => self.process_event(e, estimate),
            None => {},
        }
    }

    /// Parses and applies one log line.
    pub fn process_line(&mut self, line: &str, estimate: Option<StepEstimate>)
        requires
            old(self).wf(),
        ensures
            final(self).wf(),
            exists|second: Option<i64>|
                (second is Some ==> timestamp_text(line@) is Some) && final(self)@ == line_m(
                    old(self)@,
                    classify(line@, second),
                    estimate,
                ),
    {
        let parsed = self.parser.parse(line);
        let ghost lv = parsed@;
        self.process_parsed(parsed, estimate);
    }

    #[verifier::rlimit(40)]
    fn refresh_danger(&mut self, now: i64)
        requires
            old(self).wf(),
        ensures
            final(self).wf(),
            final(self)@ == danger_m(old(self)@, now),
    {
        let rapid_first = sat_sub_i64(now, RAPID_DAMAGE_WINDOW_SECONDS);
        let mut taken = SecondTotals::new();
        std::mem::swap(&mut taken, &mut self.damage_taken_by_second);
        taken.retain_from(rapid_first);
        let recent = taken.sum_range(rapid_first, now);
        self.damage_taken_by_second = taken;
        let idle = match self.dps_idle_since {
            Some(s) => sat_sub_i64(now, s) >= NO_DPS_WINDOW_SECONDS,
            None => false,
        };
        let no_dps = self.snapshot.round_metrics_active && idle;
        self.snapshot.rapid_damage_danger = recent > RAPID_DAMAGE_DANGER_THRESHOLD;
        self.snapshot.no_dps_for_10s = no_dps;
    }

    fn refresh_realtime(&mut self, last: i64)
        requires
            old(self).wf(),
        ensures
            final(self).wf(),
            final(self)@ == realtime_refresh_m(old(self)@, last),
    {
        let mut realtime = SecondTotals::new();
        std::mem::swap(&mut realtime, &mut self.realtime_damage_by_second);
        realtime.retain_from(sat_sub_i64(last, LATEST_DPS_HOLD_SECONDS + 1));
        let (value, nonzero) = held(&realtime, self.last_nonzero_realtime_dps, last);
        self.realtime_damage_by_second = realtime;
        self.snapshot.realtime_dps = value;
        self.last_nonzero_realtime_dps = nonzero;
    }

    #[verifier::rlimit(40)]
    fn refresh_damage(&mut self, last: i64)
        requires
            old(self).wf(),
        ensures
            final(self).wf(),
            final(self)@ == damage_refresh_m(old(self)@, last),
    {
        let first = sat_sub_i64(last, 29);
        let peak = match self.damage_by_second.max_upto(last) {
            Some(v) => max_of(self.snapshot.max_dps, v),
            None => self.snapshot.max_dps,
        };
        let mut damage = SecondTotals::new();
        std::mem::swap(&mut damage, &mut self.damage_by_second);
        damage.retain_from(sat_sub_i64(first, 2));
        let (value, nonzero) = held(&damage, self.last_nonzero_dps, last);
        let total = damage.sum_range(first, last);
        self.damage_by_second = damage;
        self.snapshot.max_dps = peak;
        self.snapshot.latest_dps = value;
        self.snapshot.average_dps = Ratio { numerator: total, denominator: AVERAGE_WINDOW_SECONDS };
        self.last_nonzero_dps = nonzero;
    }

    #[verifier::rlimit(40)]
    fn refresh_round_metrics(&mut self, now: i64, last: i64)
        requires
            old(self).wf(),
        ensures
            final(self).wf(),
            final(self)@ == round_metrics_m(old(self)@, now, last),
    {
        let end = metric_end_exclusive(&self.round_damage_by_second, now);
        let eff = effective_output_seconds(&self.round_damage_by_second, end);
        let average = match self.round_first_damage_second {
            Some(f) => {
                let elapsed = sat_add_i64(sat_sub_i64(last, f), 1);
                let elapsed = if elapsed < 1 {
                    1
                } else {
                    elapsed
                };
                Ratio { numerator: self.round_damage_total, denominator: elapsed as u64 }
            },
            None => Ratio { numerator: 0, denominator: 1 },
        };
        let effective = if eff > 0 {
            Ratio { numerator: self.round_damage_total, denominator: eff }
        } else {
            Ratio { numerator: 0, denominator: 1 }
        };
        let burst = match burst_window_damage(
            &self.round_damage_by_second,
            self.round_first_damage_second,
            end,
        ) {
            Some(w) => Some(Ratio { numerator: w, denominator: 10 }),
            None => None,
        };
        self.snapshot.round_average_dps = average;
        self.snapshot.round_effective_dps = effective;
        self.snapshot.round_burst_10s_dps = burst;
        self.snapshot.round_damage_taken = self.round_damage_taken_total;
    }

    /// Publishes the snapshot at wall-clock second `now`: prunes old
    /// buckets, extends the DPS history through the last complete second and
    /// refreshes every time-dependent field.
    pub fn snapshot_at(&mut self, now_second: i64) -> (r: GameSnapshot)
        requires
            old(self).wf(),
        ensures
            final(self).wf(),
            final(self)@ == snapshot_m(old(self)@, now_second),
            r@ == published(final(self)@),
    {
        self.refresh_danger(now_second);
        let last = sat_sub_i64(now_second, 1);
        self.update_dps_history(last);
        self.refresh_realtime(last);
        self.refresh_damage(last);
        self.refresh_round_metrics(now_second, last);
        let mut out = self.snapshot.duplicate();
        out.data_quality = DataQuality {
            degraded: self.degraded,
            issues: copy_issues(&self.protocol_issues),
        };
        assert(out@ == published(self@));
        out
    }
}

} // verus!
