//! State shared between the analyzer, the chat-box sender and the key
//! listener: system events and the key-idle metric attached to snapshots.
use vstd::prelude::*;

use crate::analysis::{GameSnapshot, RoundReport, SnapshotView};

verus! {

/// A message for the user's event log.
#[derive(Debug, Clone)]
pub struct SystemEvent {
    pub level: EventLevel,
    pub message: String,
}

#[derive(Debug, Clone, Copy, PartialEq, Eq, Structural)]
pub enum EventLevel {
    Info,
    Warning,
    Error,
}

/// What the key listener reports about the current and the last completed
/// combat round.
#[derive(Debug, Clone, Copy, PartialEq, Eq, Structural, Default)]
pub struct WasdMetricSample {
    pub active_round: Option<u64>,
    pub idle: bool,
    pub longest_standstill_seconds: u64,
    pub completed_round: Option<u64>,
    pub completed_longest_standstill_seconds: u64,
}

/// The key-idle metric: whether the listener runs, and its latest sample.
#[derive(Debug, Clone, Copy, PartialEq, Eq, Structural, Default)]
pub struct WasdMetricState {
    pub available: bool,
    pub sample: WasdMetricSample,
}

/// The round whose key-idle window is open: the current epoch while round
/// metrics are active.
pub open spec fn spec_wasd_window_round(s: SnapshotView) -> Option<u64> {
    if s.round_metrics_active {
        Some(s.combat_round_epoch)
    } else {
        None
    }
}

/// The round whose key-idle window is open: the current epoch while round
/// metrics are active.
pub fn wasd_window_round(snapshot: &GameSnapshot) -> (r: Option<u64>)
    ensures
        r == spec_wasd_window_round(snapshot@),
{
    if snapshot.round_metrics_active {
        Some(snapshot.combat_round_epoch)
    } else {
        None
    }
}

/// The longest standstill the sample knows for the round `round`.
pub open spec fn standstill_for(sample: WasdMetricSample, round: u64) -> Option<u64> {
    if sample.active_round == Some(round) {
        Some(sample.longest_standstill_seconds)
    } else if sample.completed_round == Some(round) {
        Some(sample.completed_longest_standstill_seconds)
    } else {
        None
    }
}

/// A report with its standstill metric replaced.
pub open spec fn report_with_standstill(r: RoundReport, known: bool, seconds: u64) -> RoundReport {
    RoundReport { has_longest_standstill_data: known, longest_standstill_seconds: seconds, ..r }
}

/// The report of the snapshot with the metric's standstill for its round.
pub open spec fn report_with_metric(m: WasdMetricState, s: SnapshotView) -> Option<RoundReport> {
    match s.round_report {
        Some(r) => {
            let longest = standstill_for(m.sample, s.combat_round_epoch);
            Some(
                report_with_standstill(
                    r,
                    m.available && longest is Some,
                    match longest {
                        Some(v) => v,
                        None => 0,
                    },
                ),
            )
        },
        None => None,
    }
}

/// Whether the snapshot's open window is idle according to the metric.
pub open spec fn idle_with_metric(m: WasdMetricState, s: SnapshotView) -> bool {
    let window = spec_wasd_window_round(s);
    m.available && window is Some && m.sample.active_round == window && m.sample.idle
}

/// The snapshot with the metric attached: idle only for the exact round of
/// the open window, and the report's standstill only for its own round.
pub open spec fn with_wasd_metric(m: WasdMetricState, s: SnapshotView) -> SnapshotView {
    SnapshotView {
        wasd_listener_available: m.available,
        no_wasd_for_10s: idle_with_metric(m, s),
        round_report: report_with_metric(m, s),
        ..s
    }
}

fn standstill_report(r: RoundReport, known: bool, seconds: u64) -> (out: RoundReport)
    ensures
        out == report_with_standstill(r, known, seconds),
{
    RoundReport { has_longest_standstill_data: known, longest_standstill_seconds: seconds, ..r }
}

impl WasdMetricState {
    /// Attaches the metric to `snapshot`.
    #[verifier::rlimit(40)]
    pub fn apply_to(self, snapshot: &mut GameSnapshot)
        ensures
            final(snapshot)@ == with_wasd_metric(self, old(snapshot)@),
    {
        let window = wasd_window_round(snapshot);
        let idle = self.available && window.is_some() && self.sample.active_round == window
            && self.sample.idle;
        let round = snapshot.combat_round_epoch;
        let longest = if self.sample.active_round == Some(round) {
            Some(self.sample.longest_standstill_seconds)
        } else if self.sample.completed_round == Some(round) {
            Some(self.sample.completed_longest_standstill_seconds)
        } else {
            None
        };
        let report = match snapshot.round_report {
            Some(r) => Some(
                standstill_report(
                    r,
                    self.available && longest.is_some(),
                    match longest {
                        Some(v) => v,
                        None => 0,
                    },
                ),
            ),
            None => None,
        };
        assert(report == report_with_metric(self, old(snapshot)@));
        assert(idle == idle_with_metric(self, old(snapshot)@));
        snapshot.wasd_listener_available = self.available;
        snapshot.no_wasd_for_10s = idle;
        snapshot.round_report = report;
    }

    /// The state after the listener publishes: an unavailable listener
    /// carries no sample.
    pub fn published(available: bool, sample: WasdMetricSample) -> (r: Self)
        ensures
            r.available == available,
            r.sample == (if available {
                sample
            } else {
                WasdMetricSample {
                    active_round: None,
                    idle: false,
                    longest_standstill_seconds: 0,
                    completed_round: None,
                    completed_longest_standstill_seconds: 0,
                }
            }),
    {
        WasdMetricState {
            available,
            sample: if available {
                sample
            } else {
                WasdMetricSample {
                    active_round: None,
                    idle: false,
                    longest_standstill_seconds: 0,
                    completed_round: None,
                    completed_longest_standstill_seconds: 0,
                }
            },
        }
    }
}

/// The idle flag never crosses rounds: it is set only while the sample's
/// round is the snapshot's open window.
pub proof fn law_idle_flag_stays_in_its_round(m: WasdMetricState, s: SnapshotView)
    ensures
        with_wasd_metric(m, s).no_wasd_for_10s ==> (s.round_metrics_active && m.sample.active_round
            == Some(s.combat_round_epoch)),
{
}

} // verus!
