//! Round analysis of a parsed game log: visit, lobby and combat phases,
//! per-second damage buckets and the metrics derived from them.
//!
//! Rates are kept as exact fractions ([`Ratio`]); the user interface turns
//! them into decimal text.
use unicode_normalization::UnicodeNormalization;
use vstd::prelude::*;

use crate::i18n::{catalog, text, Language, Text};
use crate::log_protocol::{DiagnosticCode, EventView, LineView, LogParser, ParsedLine, ProtocolDiagnostic};
use crate::text::{chars_eq, chars_of, decimal_string, decimal_text, owned, string_of, trim, trimmed};
use crate::totals::{
    added, kept_from, max_upto, sat_add, sat_sum, sorted, sum_between, value_at, SecondTotals,
};

verus! {

/// A complete second's DPS stays visible for this many seconds after it.
pub const LATEST_DPS_HOLD_SECONDS: i64 = 3;
/// Rolling window of the incoming-damage danger signal.
pub const RAPID_DAMAGE_WINDOW_SECONDS: i64 = 10;
/// Danger means strictly more incoming damage than this inside the window.
pub const RAPID_DAMAGE_DANGER_THRESHOLD: u64 = 50;
/// An active player without outgoing damage for this long counts as idle.
pub const NO_DPS_WINDOW_SECONDS: i64 = 10;
/// A hit keeps its surrounding output segment active for this many seconds.
pub const EFFECTIVE_OUTPUT_GRACE_SECONDS: i64 = 3;
/// Length of the burst window.
pub const BURST_WINDOW_SECONDS: i64 = 10;
/// Seconds of the rolling average.
pub const AVERAGE_WINDOW_SECONDS: u64 = 30;
/// Longest visit, in seconds, for which the DPS history is extended.
pub const HISTORY_LIMIT_SECONDS: i64 = 86400;

// ---------------------------------------------------------------------------
// Saturating signed arithmetic
// ---------------------------------------------------------------------------

pub open spec fn clamp_i64(v: int) -> i64 {
    if v > i64::MAX {
        i64::MAX
    } else if v < i64::MIN {
        i64::MIN
    } else {
        v as i64
    }
}

/// `a.saturating_add(b)`.
pub fn sat_add_i64(a: i64, b: i64) -> (r: i64)
    ensures
        r == clamp_i64(a + b),
{
    if b > 0 && a > i64::MAX - b {
        i64::MAX
    } else if b < 0 && a < i64::MIN - b {
        i64::MIN
    } else {
        a + b
    }
}

/// `a.saturating_sub(b)`.
pub fn sat_sub_i64(a: i64, b: i64) -> (r: i64)
    ensures
        r == clamp_i64(a - b),
{
    if b < 0 && a > i64::MAX + b {
        i64::MAX
    } else if b > 0 && a < i64::MIN + b {
        i64::MIN
    } else {
        a - b
    }
}

pub open spec fn max_i64(a: i64, b: i64) -> i64 {
    if a >= b {
        a
    } else {
        b
    }
}

pub open spec fn min_i64(a: i64, b: i64) -> i64 {
    if a <= b {
        a
    } else {
        b
    }
}

pub open spec fn max_u64(a: u64, b: u64) -> u64 {
    if a >= b {
        a
    } else {
        b
    }
}

// ---------------------------------------------------------------------------
// Phases and statuses
// ---------------------------------------------------------------------------

#[derive(Debug, Clone, Copy, PartialEq, Eq, Structural)]
pub enum RoundPhase {
    Outside,
    Syncing,
    Lobby,
    Combat,
}

impl RoundPhase {
    pub open spec fn spec_label(self) -> Seq<char> {
        match self {
            RoundPhase::Outside => "OUTSIDE"@,
            RoundPhase::Syncing => "SYNCING"@,
            RoundPhase::Lobby => "LOBBY"@,
            RoundPhase::Combat => "COMBAT"@,
        }
    }

    /// The stable machine-readable name of the phase.
    pub fn label(self) -> (r: &'static str)
        ensures
            r@ == self.spec_label(),
    {
        match self {
            RoundPhase::Outside => "OUTSIDE",
            RoundPhase::Syncing => "SYNCING",
            RoundPhase::Lobby => "LOBBY",
            RoundPhase::Combat => "COMBAT",
        }
    }

    pub open spec fn text_key(self) -> Text {
        match self {
            RoundPhase::Outside => Text::PhaseOutside,
            RoundPhase::Syncing => Text::PhaseSyncing,
            RoundPhase::Lobby => Text::PhaseLobby,
            RoundPhase::Combat => Text::PhaseCombat,
        }
    }

    /// The phase as shown to the user in `language`.
    pub fn display_label(self, language: Language) -> (r: &'static str)
        ensures
            r == catalog(self.text_key()).spec_get(language),
    {
        let key = match self {
            RoundPhase::Outside => Text::PhaseOutside,
            RoundPhase::Syncing => Text::PhaseSyncing,
            RoundPhase::Lobby => Text::PhaseLobby,
            RoundPhase::Combat => Text::PhaseCombat,
        };
        text(key).get(language)
    }
}

#[derive(Debug, Clone, Copy, PartialEq, Eq, Structural)]
pub enum DataStatus {
    Searching,
    Recovering,
    Live,
    Stale,
    Error,
}

impl DataStatus {
    pub open spec fn spec_label(self) -> Seq<char> {
        match self {
            DataStatus::Searching => "SEARCHING"@,
            DataStatus::Recovering => "RECOVERING"@,
            DataStatus::Live => "LIVE"@,
            DataStatus::Stale => "STALE"@,
            DataStatus::Error => "ERROR"@,
        }
    }

    /// The stable machine-readable name of the status.
    pub fn label(self) -> (r: &'static str)
        ensures
            r@ == self.spec_label(),
    {
        match self {
            DataStatus::Searching => "SEARCHING",
            DataStatus::Recovering => "RECOVERING",
            DataStatus::Live => "LIVE",
            DataStatus::Stale => "STALE",
            DataStatus::Error => "ERROR",
        }
    }
}

// ---------------------------------------------------------------------------
// Values
// ---------------------------------------------------------------------------

/// The exact rate `numerator / denominator`.
#[derive(Debug, Clone, Copy, PartialEq, Eq, Structural)]
pub struct Ratio {
    pub numerator: u64,
    pub denominator: u64,
}

pub open spec fn zero_ratio() -> Ratio {
    Ratio { numerator: 0, denominator: 1 }
}

/// A step estimate of the full run: the one-based current combat round and
/// the ordinary rounds left before the final boss.
#[derive(Debug, Clone, Copy, PartialEq, Eq, Structural)]
pub struct StepEstimate {
    pub current: u32,
    pub until_boss: u32,
}

/// One second of the visit-wide DPS series.
#[derive(Debug, Clone, Copy, PartialEq, Eq, Structural)]
pub struct DpsHistoryPoint {
    /// Whole seconds since this visit started.
    pub elapsed_seconds: u64,
    /// Personal outgoing damage recorded in that second.
    pub dps: u64,
    /// Locally observed combat identity; zero outside combat.
    pub combat_round_epoch: u64,
    /// Estimated one-based round of the full run, when known.
    pub estimated_step: Option<u32>,
}

/// The archive of a completed round.
#[derive(Debug, Clone, Copy, PartialEq, Eq, Structural)]
pub struct RoundReport {
    /// Whether a round-start timestamp was observed.
    pub has_duration_data: bool,
    /// Whether at least one outgoing-damage record exists in this round.
    pub has_output_data: bool,
    /// Full stage duration, from the stage marker to the lobby.
    pub duration_seconds: u64,
    pub total_damage: u64,
    /// Total damage over the seconds since the first hit.
    pub average_dps: Ratio,
    pub max_dps: u64,
    /// Total damage over the union of the post-hit grace intervals.
    pub effective_dps: Ratio,
    /// Highest complete ten-second window, per second.
    pub burst_10s_dps: Option<Ratio>,
    /// Effective DPS of the previous comparable round, when one exists; the
    /// growth rate is `(effective - previous) / previous * 100`.
    pub previous_effective_dps: Option<Ratio>,
    pub damage_taken: u64,
    /// Whether the key listener observed this round from its start.
    pub has_longest_standstill_data: bool,
    /// Longest interval without W, A, S or D during this round.
    pub longest_standstill_seconds: u64,
}

/// Aggregated compatibility problem of the log protocol.
#[derive(Debug, Clone, PartialEq, Eq)]
pub struct DataQualityIssue {
    pub code: DiagnosticCode,
    pub message: String,
    pub occurrences: u64,
}

pub struct IssueView {
    pub code: DiagnosticCode,
    pub message: Seq<char>,
    pub occurrences: u64,
}

impl DataQualityIssue {
    pub open spec fn view(&self) -> IssueView {
        IssueView { code: self.code, message: self.message@, occurrences: self.occurrences }
    }
}

pub open spec fn issues_view(v: Seq<DataQualityIssue>) -> Seq<IssueView> {
    v.map_values(|i: DataQualityIssue| i.view())
}

/// Whether the log protocol is degraded, and its aggregated issues.
#[derive(Debug, Clone, PartialEq, Eq)]
pub struct DataQuality {
    pub degraded: bool,
    pub issues: Vec<DataQualityIssue>,
}

// ---------------------------------------------------------------------------
// Text of values
// ---------------------------------------------------------------------------

pub open spec fn two_digits(n: nat) -> Seq<char> {
    if n < 10 {
        seq!['0'] + decimal_text(n)
    } else {
        decimal_text(n)
    }
}

/// `h:mm:ss` when at least one hour has passed, else `mm:ss`.
pub open spec fn duration_text(total: nat) -> Seq<char> {
    let hours = total / 3600;
    let minutes = total % 3600 / 60;
    let seconds = total % 60;
    if hours > 0 {
        decimal_text(hours) + seq![':'] + two_digits(minutes) + seq![':'] + two_digits(seconds)
    } else {
        two_digits(minutes) + seq![':'] + two_digits(seconds)
    }
}

fn push_two_digits(out: &mut Vec<char>, n: u64)
    requires
        n < 100,
    ensures
        final(out)@ == old(out)@ + two_digits(n as nat),
{
    if n < 10 {
        out.push('0');
    }
    let d = decimal_chars_of(n);
    let ghost before = out@;
    out.append(&mut d.clone());
    assert(out@ =~= before + d@);
    proof {
        if n < 10 {
            assert(two_digits(n as nat) =~= seq!['0'] + decimal_text(n as nat));
        }
    }
}

fn decimal_chars_of(n: u64) -> (r: Vec<char>)
    ensures
        r@ == decimal_text(n as nat),
{
    crate::text::decimal_chars(n)
}

/// Formats a duration in seconds as `h:mm:ss` or `mm:ss`.
pub fn format_duration(total_seconds: u64) -> (r: String)
    ensures
        r@ == duration_text(total_seconds as nat),
{
    let hours = total_seconds / 3600;
    let minutes = total_seconds % 3600 / 60;
    let seconds = total_seconds % 60;
    let mut out: Vec<char> = Vec::new();
    if hours > 0 {
        let h = decimal_chars_of(hours);
        out = h;
        out.push(':');
    }
    push_two_digits(&mut out, minutes);
    out.push(':');
    push_two_digits(&mut out, seconds);
    proof {
        if hours > 0 {
            assert(out@ =~= duration_text(total_seconds as nat));
        } else {
            assert(out@ =~= duration_text(total_seconds as nat));
        }
    }
    string_of(&out)
}

/// Formats a number of seconds as plain decimal digits.
pub fn format_seconds(total_seconds: u64) -> (r: String)
    ensures
        r@ == decimal_text(total_seconds as nat),
{
    decimal_string(total_seconds)
}

/// The text shown for a missing value.
pub open spec fn missing_text() -> Seq<char> {
    seq!['-']
}

fn missing_string() -> (r: String)
    ensures
        r@ == missing_text(),
{
    let v = vec!['-'];
    string_of(&v)
}

/// A whole number, or the missing mark.
pub open spec fn count_or_missing(known: bool, n: u64) -> Seq<char> {
    if known {
        decimal_text(n as nat)
    } else {
        missing_text()
    }
}

fn count_text(known: bool, n: u64) -> (r: String)
    ensures
        r@ == count_or_missing(known, n),
{
    if known {
        decimal_string(n)
    } else {
        missing_string()
    }
}

impl RoundReport {
    /// The round's duration, or `-` without a start time.
    pub fn duration_text(&self) -> (r: String)
        ensures
            r@ == (if self.has_duration_data {
                duration_text(self.duration_seconds as nat)
            } else {
                missing_text()
            }),
    {
        if self.has_duration_data {
            format_duration(self.duration_seconds)
        } else {
            missing_string()
        }
    }

    /// The round's highest DPS, or `-` without output.
    pub fn max_dps_text(&self) -> (r: String)
        ensures
            r@ == count_or_missing(self.has_output_data, self.max_dps),
    {
        count_text(self.has_output_data, self.max_dps)
    }

    /// The round's longest standstill in seconds, or `-` when unknown.
    pub fn longest_standstill_text(&self) -> (r: String)
        ensures
            r@ == count_or_missing(self.has_longest_standstill_data, self.longest_standstill_seconds),
    {
        count_text(self.has_longest_standstill_data, self.longest_standstill_seconds)
    }
}

// ---------------------------------------------------------------------------
// Names
// ---------------------------------------------------------------------------

/// Unicode NFKC normalization of a text.
pub uninterp spec fn nfkc_text(s: Seq<char>) -> Seq<char>;

/// Unicode lowercase mapping of a text (`str::to_lowercase`).
pub uninterp spec fn lowercase_text(s: Seq<char>) -> Seq<char>;

/// The NFKC normal form of `value`, from `unicode-normalization`
/// (`UnicodeNormalization::nfkc`). The result is named, not stated: it
/// depends on `value` alone.
#[verifier::external_body]
fn nfkc(value: &str) -> (r: String)
    ensures
        r@ == nfkc_text(value@),
{
    value.nfkc().collect::<String>()
}

/// `str::to_lowercase`: the Unicode lowercase mapping, named as a function
/// of its argument alone.
#[verifier::external_body]
fn to_lowercase(value: &str) -> (r: String)
    ensures
        r@ == lowercase_text(value@),
{
    value.to_lowercase()
}

/// The comparison key of a name: NFKC, trimmed, lowercased.
pub open spec fn name_key(value: Seq<char>) -> Seq<char> {
    lowercase_text(trimmed(nfkc_text(value)))
}

/// The comparison key of a name: NFKC, trimmed, lowercased.
pub fn normalized_name(value: &str) -> (r: String)
    ensures
        r@ == name_key(value@),
{
    let n = nfkc(value);
    let c = chars_of(n.as_str());
    let t = trim(&c);
    let s = string_of(&t);
    to_lowercase(s.as_str())
}

pub open spec fn final_boss_name() -> Seq<char> {
    "JimBringerPhase3"@
}

/// Whether `name` is the final phase of the final boss.
pub open spec fn spec_is_jim_final_phase(name: Seq<char>) -> bool {
    name_key(name) == name_key(final_boss_name())
}

/// Whether `name` is the final phase of the final boss.
pub fn is_jim_final_phase(name: &str) -> (r: bool)
    ensures
        r == spec_is_jim_final_phase(name@),
{
    let a = normalized_name(name);
    let b = normalized_name("JimBringerPhase3");
    let ca = chars_of(a.as_str());
    let cb = chars_of(b.as_str());
    chars_eq(&ca, &cb)
}

/// Whether two object names denote the same boss.
pub open spec fn spec_boss_object_matches(boss: Seq<char>, object: Seq<char>) -> bool {
    name_key(boss) == name_key(object)
}

/// Whether two object names denote the same boss.
pub fn boss_object_matches(boss: &str, object: &str) -> (r: bool)
    ensures
        r == spec_boss_object_matches(boss@, object@),
{
    let a = normalized_name(boss);
    let b = normalized_name(object);
    let ca = chars_of(a.as_str());
    let cb = chars_of(b.as_str());
    chars_eq(&ca, &cb)
}


// ---------------------------------------------------------------------------
// Round metrics over per-second damage
// ---------------------------------------------------------------------------

/// The recorded seconds of a per-second list, in order.
pub open spec fn keys_of(e: Seq<(i64, u64)>) -> Seq<i64> {
    e.map_values(|p: (i64, u64)| p.0)
}

/// Length of `[start, min(interval_end, end))`, as the saturating signed
/// difference converted to `u64`.
pub open spec fn clipped_len(start: i64, interval_end: i64, end_exclusive: i64) -> u64 {
    clamp_i64(min_i64(interval_end, end_exclusive) - start) as u64
}

/// Merging the grace interval `[second, second + 3)` of one hit into the
/// running (closed total, open interval start, open interval end).
pub open spec fn grace_step(st: (u64, Option<i64>, i64), second: i64, end_exclusive: i64) -> (
    u64,
    Option<i64>,
    i64,
) {
    if second >= end_exclusive {
        st
    } else {
        let hit_end = clamp_i64(second + EFFECTIVE_OUTPUT_GRACE_SECONDS);
        match st.1 {
            None => (st.0, Some(second), hit_end),
            Some(start) => if second > st.2 {
                (sat_add(st.0, clipped_len(start, st.2, end_exclusive)), Some(second), hit_end)
            } else {
                (st.0, st.1, max_i64(st.2, hit_end))
            },
        }
    }
}

pub open spec fn grace_fold(keys: Seq<i64>, end_exclusive: i64) -> (u64, Option<i64>, i64)
    decreases keys.len(),
{
    if keys.len() == 0 {
        (0, None, 0)
    } else {
        grace_step(grace_fold(keys.drop_last(), end_exclusive), keys.last(), end_exclusive)
    }
}

/// Seconds covered by the merged grace intervals of the hits before
/// `end_exclusive`, each interval clipped at `end_exclusive`.
#[verifier::opaque]
pub open spec fn effective_seconds(e: Seq<(i64, u64)>, end_exclusive: i64) -> u64 {
    let st = grace_fold(keys_of(e), end_exclusive);
    match st.1 {
        Some(start) => sat_add(st.0, clipped_len(start, st.2, end_exclusive)),
        None => st.0,
    }
}

/// Whether second `t` lies before `end_exclusive` in the grace interval
/// `[k, k + 3)` of some hit `k` before `end_exclusive`.
pub open spec fn grace_covers(keys: Seq<i64>, end_exclusive: i64, t: int) -> bool {
    exists|k: int|
        0 <= k < keys.len() && #[trigger] keys[k] < end_exclusive && keys[k] <= t < keys[k] + EFFECTIVE_OUTPUT_GRACE_SECONDS
            && t < end_exclusive
}

/// How many seconds of `[lo, hi)` the grace intervals cover.
pub open spec fn covered_count(keys: Seq<i64>, end_exclusive: i64, lo: int, hi: int) -> nat
    decreases hi - lo,
{
    if hi <= lo {
        0
    } else {
        covered_count(keys, end_exclusive, lo, hi - 1) + if grace_covers(keys, end_exclusive, hi - 1) {
            1nat
        } else {
            0nat
        }
    }
}

proof fn lemma_count_split(keys: Seq<i64>, end: i64, a: int, b: int, c: int)
    requires
        a <= b <= c,
    ensures
        covered_count(keys, end, a, c) == covered_count(keys, end, a, b) + covered_count(keys, end, b, c),
    decreases c - b,
{
    if c > b {
        lemma_count_split(keys, end, a, b, c - 1);
    }
}

proof fn lemma_count_all(keys: Seq<i64>, end: i64, a: int, b: int)
    requires
        a <= b,
        forall|t: int| a <= t < b ==> grace_covers(keys, end, t),
    ensures
        covered_count(keys, end, a, b) == b - a,
    decreases b - a,
{
    if b > a {
        assert(grace_covers(keys, end, b - 1));
        lemma_count_all(keys, end, a, b - 1);
    }
}

proof fn lemma_count_none(keys: Seq<i64>, end: i64, a: int, b: int)
    requires
        forall|t: int| a <= t < b ==> !grace_covers(keys, end, t),
    ensures
        covered_count(keys, end, a, b) == 0,
    decreases b - a,
{
    if b > a {
        assert(!grace_covers(keys, end, b - 1));
        lemma_count_none(keys, end, a, b - 1);
    }
}

proof fn lemma_count_same(k1: Seq<i64>, k2: Seq<i64>, end: i64, a: int, b: int)
    requires
        forall|t: int| a <= t < b ==> grace_covers(k1, end, t) == grace_covers(k2, end, t),
    ensures
        covered_count(k1, end, a, b) == covered_count(k2, end, a, b),
    decreases b - a,
{
    if b > a {
        assert(grace_covers(k1, end, b - 1) == grace_covers(k2, end, b - 1));
        lemma_count_same(k1, k2, end, a, b - 1);
    }
}

proof fn lemma_count_bound(keys: Seq<i64>, end: i64, a: int, b: int)
    requires
        a <= b,
    ensures
        covered_count(keys, end, a, b) <= b - a,
    decreases b - a,
{
    if b > a {
        lemma_count_bound(keys, end, a, b - 1);
    }
}

proof fn lemma_covers_push(p: Seq<i64>, k: i64, end: i64, t: int)
    ensures
        grace_covers(p.push(k), end, t) == (grace_covers(p, end, t) || (k < end && k <= t < k
            + EFFECTIVE_OUTPUT_GRACE_SECONDS && t < end)),
{
    let q = p.push(k);
    if grace_covers(p, end, t) {
        let j = choose|j: int|
            0 <= j < p.len() && #[trigger] p[j] < end && p[j] <= t < p[j] + EFFECTIVE_OUTPUT_GRACE_SECONDS && t < end;
        assert(q[j] == p[j]);
    }
    if k < end && k <= t < k + EFFECTIVE_OUTPUT_GRACE_SECONDS && t < end {
        assert(q[p.len() as int] == k);
    }
    if grace_covers(q, end, t) {
        let j = choose|j: int|
            0 <= j < q.len() && #[trigger] q[j] < end && q[j] <= t < q[j] + EFFECTIVE_OUTPUT_GRACE_SECONDS && t < end;
        if j < p.len() {
            assert(q[j] == p[j]);
        }
    }
}

/// The running state of the grace fold over the hits `p` describes their
/// coverage from `lo`: closed seconds counted, the open interval covered
/// entirely, and nothing covered after it.
pub open spec fn grace_state_ok(p: Seq<i64>, end: i64, lo: int, st: (u64, Option<i64>, i64)) -> bool {
    &&& st.1 matches Some(start)
    &&& lo <= start < end
    &&& start < st.2
    &&& start <= p.last()
    &&& st.0 == covered_count(p, end, lo, start as int)
    &&& forall|t: int| start <= t < min_i64(st.2, end) ==> grace_covers(p, end, t)
    &&& forall|t: int| grace_covers(p, end, t) ==> lo <= t < min_i64(st.2, end)
}

proof fn lemma_grace_step_ok(p: Seq<i64>, k: i64, end: i64, lo: int, st: (u64, Option<i64>, i64))
    requires
        p.len() > 0,
        grace_state_ok(p, end, lo, st),
        p.last() < k,
        end - lo <= i64::MAX,
    ensures
        grace_state_ok(p.push(k), end, lo, grace_step(st, k, end)),
{
    let q = p.push(k);
    let start = st.1->0;
    let m = min_i64(st.2, end);
    assert(q.last() == k);
    assert forall|t: int| #![trigger grace_covers(q, end, t)] true implies grace_covers(q, end, t) == (grace_covers(p, end, t) || (k < end && k <= t < k + EFFECTIVE_OUTPUT_GRACE_SECONDS && t < end)) by {
        lemma_covers_push(p, k, end, t);
    }
    assert forall|t: int| lo <= t < start implies grace_covers(q, end, t) == grace_covers(p, end, t) by {
        lemma_covers_push(p, k, end, t);
    }
    lemma_count_same(q, p, end, lo, start as int);
    if k >= end {
    } else if k > st.2 {
        lemma_count_bound(p, end, lo, start as int);
        assert forall|t: int| start <= t < m implies grace_covers(q, end, t) by {
            lemma_covers_push(p, k, end, t);
        }
        assert forall|t: int| m <= t < k implies !grace_covers(q, end, t) by {
            lemma_covers_push(p, k, end, t);
        }
        lemma_count_all(q, end, start as int, m as int);
        lemma_count_none(q, end, m as int, k as int);
        lemma_count_split(q, end, lo, start as int, m as int);
        lemma_count_split(q, end, lo, m as int, k as int);
        assert(clipped_len(start, st.2, end) == m - start);
    } else {
    }
}

proof fn lemma_grace_fold_ok(keys: Seq<i64>, end: i64, i: int)
    requires
        forall|a: int, b: int| 0 <= a < b < keys.len() ==> keys[a] < keys[b],
        keys.len() > 0,
        keys[0] < end,
        end - keys[0] <= i64::MAX,
        1 <= i <= keys.len(),
    ensures
        grace_state_ok(keys.take(i), end, keys[0] as int, grace_fold(keys.take(i), end)),
    decreases i,
{
    let p = keys.take(i);
    assert(p.drop_last() =~= keys.take(i - 1));
    assert(p.last() == keys[i - 1]);
    if i == 1 {
        assert(keys.take(0) =~= Seq::<i64>::empty());
        let k = keys[0];
        assert(p =~= Seq::<i64>::empty().push(k));
        assert forall|t: int| #![trigger grace_covers(p, end, t)] true implies grace_covers(p, end, t) == (k <= t < k + EFFECTIVE_OUTPUT_GRACE_SECONDS && t < end) by {
            lemma_covers_push(Seq::<i64>::empty(), k, end, t);
        }
    } else {
        lemma_grace_fold_ok(keys, end, i - 1);
        let q = keys.take(i - 1);
        assert(p =~= q.push(keys[i - 1]));
        assert(q.last() == keys[i - 2]);
        lemma_grace_step_ok(q, keys[i - 1], end, keys[0] as int, grace_fold(q, end));
    }
}

proof fn lemma_grace_fold_idle(keys: Seq<i64>, end: i64, i: int)
    requires
        forall|a: int| 0 <= a < keys.len() ==> keys[a] >= end,
        0 <= i <= keys.len(),
    ensures
        grace_fold(keys.take(i), end) == (0u64, Option::<i64>::None, 0i64),
    decreases i,
{
    if i > 0 {
        let p = keys.take(i);
        assert(p.drop_last() =~= keys.take(i - 1));
        assert(p.last() == keys[i - 1]);
        lemma_grace_fold_idle(keys, end, i - 1);
    } else {
        assert(keys.take(0) =~= Seq::<i64>::empty());
    }
}

/// The effective output seconds are exactly the seconds before
/// `end_exclusive` that lie in the three-second grace interval of some hit
/// (counted from the first hit on): overlapping intervals count once.
pub proof fn law_effective_seconds_are_the_merged_grace_intervals(e: Seq<(i64, u64)>, end_exclusive: i64)
    requires
        sorted(e),
        e.len() > 0 ==> end_exclusive - e[0].0 <= i64::MAX,
    ensures
        effective_seconds(e, end_exclusive) == covered_count(
            keys_of(e),
            end_exclusive,
            if e.len() > 0 {
                e[0].0 as int
            } else {
                end_exclusive as int
            },
            end_exclusive as int,
        ),
{
    reveal(effective_seconds);
    let keys = keys_of(e);
    assert(keys.take(keys.len() as int) =~= keys);
    assert forall|a: int, b: int| 0 <= a < b < keys.len() implies keys[a] < keys[b] by {
        assert(keys[a] == e[a].0 && keys[b] == e[b].0);
    }
    if e.len() == 0 || e[0].0 >= end_exclusive {
        assert forall|a: int| 0 <= a < keys.len() implies keys[a] >= end_exclusive by {
            if a > 0 {
                assert(keys[0] < keys[a]);
            }
            assert(keys[0] == e[0].0);
        }
        lemma_grace_fold_idle(keys, end_exclusive, keys.len() as int);
    } else {
        let lo = e[0].0 as int;
        assert(keys[0] == e[0].0);
        lemma_grace_fold_ok(keys, end_exclusive, keys.len() as int);
        let st = grace_fold(keys, end_exclusive);
        let start = st.1->0;
        let m = min_i64(st.2, end_exclusive);
        lemma_count_bound(keys, end_exclusive, lo, start as int);
        lemma_count_all(keys, end_exclusive, start as int, m as int);
        lemma_count_none(keys, end_exclusive, m as int, end_exclusive as int);
        lemma_count_split(keys, end_exclusive, lo, start as int, m as int);
        lemma_count_split(keys, end_exclusive, lo, m as int, end_exclusive as int);
        assert(clipped_len(start, st.2, end_exclusive) == m - start);
    }
}

fn sat_add_u64(a: u64, b: u64) -> (r: u64)
    ensures
        r == sat_add(a, b),
{
    if a > u64::MAX - b {
        u64::MAX
    } else {
        a + b
    }
}

/// Seconds of output activity: hits keep a three-second grace interval and
/// overlapping intervals are merged.
pub fn effective_output_seconds(damage_by_second: &SecondTotals, end_exclusive: i64) -> (r: u64)
    ensures
        r == effective_seconds(damage_by_second@, end_exclusive),
{
    reveal(effective_seconds);
    let keys = damage_by_second.seconds();
    let ghost k = keys_of(damage_by_second@);
    assert(keys@ =~= k);
    let n = keys.len();
    let mut total: u64 = 0;
    let mut interval_start: Option<i64> = None;
    let mut interval_end: i64 = 0;
    let mut i: usize = 0;
    while i < n
        invariant
            i <= n,
            n == keys@.len(),
            keys@ == k,
            (total, interval_start, interval_end) == grace_fold(k.take(i as int), end_exclusive),
        decreases n - i,
    {
        let second = keys[i];
        assert(k.take(i + 1).drop_last() =~= k.take(i as int));
        if second < end_exclusive {
            let hit_end = sat_add_i64(second, EFFECTIVE_OUTPUT_GRACE_SECONDS);
            match interval_start {
                None => {
                    interval_start = Some(second);
                    interval_end = hit_end;
                },
                Some(start) => {
                    if second > interval_end {
                        let upto = if interval_end <= end_exclusive {
                            interval_end
                        } else {
                            end_exclusive
                        };
                        let len = sat_sub_i64(upto, start);
                        total = sat_add_u64(total, len as u64);
                        interval_start = Some(second);
                        interval_end = hit_end;
                    } else {
                        if hit_end > interval_end {
                            interval_end = hit_end;
                        }
                    }
                },
            }
        }
        i = i + 1;
    }
    assert(k.take(n as int) =~= k);
    match interval_start {
        Some(start) => {
            let upto = if interval_end <= end_exclusive {
                interval_end
            } else {
                end_exclusive
            };
            let len = sat_sub_i64(upto, start);
            sat_add_u64(total, len as u64)
        },
        None => total,
    }
}

/// The end of the metric interval: one past the last recorded second, or
/// the requested end when that is later.
pub open spec fn metric_end(e: Seq<(i64, u64)>, requested_end: i64) -> i64 {
    if e.len() == 0 {
        requested_end
    } else {
        max_i64(clamp_i64(e.last().0 + 1), requested_end)
    }
}

/// The end of the metric interval: one past the last recorded second, or
/// the requested end when that is later.
pub fn metric_end_exclusive(damage_by_second: &SecondTotals, requested_end: i64) -> (r: i64)
    ensures
        r == metric_end(damage_by_second@, requested_end),
{
    let candidate = match damage_by_second.last_second() {
        Some(second) => sat_add_i64(second, 1),
        None => requested_end,
    };
    if candidate >= requested_end {
        candidate
    } else {
        requested_end
    }
}

/// Damage of the ten-second window starting at `start`.
pub open spec fn window_damage(e: Seq<(i64, u64)>, start: i64) -> u64 {
    sat_sum(sum_between(e, start as int, clamp_i64(start + BURST_WINDOW_SECONDS - 1) as int))
}

pub open spec fn clamp_between(v: i64, lo: i64, hi: i64) -> i64 {
    if v < lo {
        lo
    } else if v > hi {
        hi
    } else {
        v
    }
}

/// The window that ends on a hit at `second`, kept inside
/// `[first, last_start]`.
pub open spec fn window_start_for(second: i64, first: i64, last_start: i64) -> i64 {
    clamp_between(clamp_i64(second - (BURST_WINDOW_SECONDS - 1)), first, last_start)
}

/// Largest window damage over the first-hit window and the windows ending on
/// each hit in `[first, end_exclusive)`.
pub open spec fn best_window(
    e: Seq<(i64, u64)>,
    keys: Seq<i64>,
    first: i64,
    last_start: i64,
    end_exclusive: i64,
) -> u64
    decreases keys.len(),
{
    if keys.len() == 0 {
        window_damage(e, first)
    } else {
        let rest = best_window(e, keys.drop_last(), first, last_start, end_exclusive);
        let second = keys.last();
        if second >= first && second < end_exclusive {
            max_u64(rest, window_damage(e, window_start_for(second, first, last_start)))
        } else {
            rest
        }
    }
}

proof fn lemma_sum_slides_left(e: Seq<(i64, u64)>, s: int)
    requires
        forall|i: int| 0 <= i < e.len() ==> #[trigger] e[i].0 != s + BURST_WINDOW_SECONDS - 1,
    ensures
        sum_between(e, s, s + BURST_WINDOW_SECONDS - 1) <= sum_between(e, s - 1, s + BURST_WINDOW_SECONDS - 2),
    decreases e.len(),
{
    if e.len() > 0 {
        let d = e.drop_last();
        assert forall|i: int| 0 <= i < d.len() implies #[trigger] d[i].0 != s + BURST_WINDOW_SECONDS - 1 by {
            assert(d[i] == e[i]);
        }
        assert(e.last() == e[e.len() - 1]);
        lemma_sum_slides_left(d, s);
    }
}

proof fn lemma_best_covers_first(e: Seq<(i64, u64)>, keys: Seq<i64>, first: i64, last_start: i64, end_exclusive: i64)
    ensures
        window_damage(e, first) <= best_window(e, keys, first, last_start, end_exclusive),
        best_window(e, keys, first, last_start, end_exclusive) == window_damage(e, first) || exists|k: int|
            0 <= k < keys.len() && first <= keys[k] < end_exclusive && best_window(e, keys, first, last_start, end_exclusive)
                == window_damage(e, window_start_for(#[trigger] keys[k], first, last_start)),
    decreases keys.len(),
{
    if keys.len() > 0 {
        let d = keys.drop_last();
        lemma_best_covers_first(e, d, first, last_start, end_exclusive);
        if best_window(e, d, first, last_start, end_exclusive) != window_damage(e, first) {
            let k = choose|k: int|
                0 <= k < d.len() && first <= d[k] < end_exclusive && best_window(e, d, first, last_start, end_exclusive)
                    == window_damage(e, window_start_for(#[trigger] d[k], first, last_start));
            assert(keys[k] == d[k]);
        }
        assert(keys.last() == keys[keys.len() - 1]);
    }
}

proof fn lemma_best_covers_key(e: Seq<(i64, u64)>, keys: Seq<i64>, first: i64, last_start: i64, end_exclusive: i64, k: int)
    requires
        0 <= k < keys.len(),
        first <= keys[k] < end_exclusive,
    ensures
        window_damage(e, window_start_for(keys[k], first, last_start)) <= best_window(
            e,
            keys,
            first,
            last_start,
            end_exclusive,
        ),
    decreases keys.len(),
{
    let d = keys.drop_last();
    if k < keys.len() - 1 {
        assert(d[k] == keys[k]);
        lemma_best_covers_key(e, d, first, last_start, end_exclusive, k);
    }
}

proof fn lemma_window_below_best(e: Seq<(i64, u64)>, first: i64, last_start: i64, end_exclusive: i64, s: i64)
    requires
        first <= s <= last_start,
        last_start as int + BURST_WINDOW_SECONDS <= end_exclusive,
    ensures
        window_damage(e, s) <= best_window(e, keys_of(e), first, last_start, end_exclusive),
    decreases s - first,
{
    let hi = s + BURST_WINDOW_SECONDS - 1;
    if s == first {
        lemma_best_covers_first(e, keys_of(e), first, last_start, end_exclusive);
    } else if exists|i: int| 0 <= i < e.len() && #[trigger] e[i].0 == hi {
        let i = choose|i: int| 0 <= i < e.len() && #[trigger] e[i].0 == hi;
        assert(keys_of(e)[i] == hi);
        assert(window_start_for(hi as i64, first, last_start) == s);
        lemma_best_covers_key(e, keys_of(e), first, last_start, end_exclusive, i);
    } else {
        lemma_sum_slides_left(e, s as int);
        lemma_window_below_best(e, first, last_start, end_exclusive, (s - 1) as i64);
    }
}

/// The burst is the best complete ten-second window after the first hit:
/// no window that starts between the first hit and the last start that
/// fits before `end_exclusive` holds more damage, and the burst is the
/// damage of one such window.
pub proof fn law_burst_is_the_best_window(e: Seq<(i64, u64)>, first: i64, end_exclusive: i64, s: i64)
    requires
        clamp_i64(end_exclusive - first) >= BURST_WINDOW_SECONDS,
        first <= s <= end_exclusive - BURST_WINDOW_SECONDS,
    ensures
        burst_window(e, Some(first), end_exclusive) matches Some(b) && window_damage(e, s) <= b && exists|w: i64|
            first <= w <= end_exclusive - BURST_WINDOW_SECONDS && b == #[trigger] window_damage(e, w),
{
    reveal(burst_window);
    let last_start = clamp_i64(end_exclusive - BURST_WINDOW_SECONDS);
    lemma_window_below_best(e, first, last_start, end_exclusive, s);
    lemma_best_covers_first(e, keys_of(e), first, last_start, end_exclusive);
    let b = best_window(e, keys_of(e), first, last_start, end_exclusive);
    if b == window_damage(e, first) {
        assert(window_damage(e, first) == b);
    } else {
        let k = choose|k: int|
            0 <= k < keys_of(e).len() && first <= keys_of(e)[k] < end_exclusive && b == window_damage(
                e,
                window_start_for(#[trigger] keys_of(e)[k], first, last_start),
            );
        let w = window_start_for(keys_of(e)[k], first, last_start);
        assert(window_damage(e, w) == b);
    }
}

/// Damage of the best complete ten-second window since the first hit, when
/// a complete window fits before `end_exclusive`.
#[verifier::opaque]
pub open spec fn burst_window(e: Seq<(i64, u64)>, first_damage: Option<i64>, end_exclusive: i64) -> Option<u64> {
    match first_damage {
        None => None,
        Some(first) => if clamp_i64(end_exclusive - first) < BURST_WINDOW_SECONDS {
            None
        } else {
            let last_start = clamp_i64(end_exclusive - BURST_WINDOW_SECONDS);
            Some(best_window(e, keys_of(e), first, last_start, end_exclusive))
        },
    }
}

/// Damage of the best complete ten-second window (the burst DPS is a tenth
/// of it).
pub fn burst_window_damage(
    damage_by_second: &SecondTotals,
    first_damage_second: Option<i64>,
    end_exclusive: i64,
) -> (r: Option<u64>)
    ensures
        r == burst_window(damage_by_second@, first_damage_second, end_exclusive),
{
    reveal(burst_window);
    let first = match first_damage_second {
        Some(f) => f,
        None => return None,
    };
    if sat_sub_i64(end_exclusive, first) < BURST_WINDOW_SECONDS {
        return None;
    }
    let last_start = sat_sub_i64(end_exclusive, BURST_WINDOW_SECONDS);
    let ghost e = damage_by_second@;
    let keys = damage_by_second.seconds();
    let ghost k = keys_of(e);
    assert(keys@ =~= k);
    let n = keys.len();
    let end0 = sat_add_i64(first, BURST_WINDOW_SECONDS - 1);
    let mut maximum = damage_by_second.sum_range(first, end0);
    let mut i: usize = 0;
    assert(k.take(0) =~= Seq::<i64>::empty());
    while i < n
        invariant
            i <= n,
            n == keys@.len(),
            keys@ == k,
            e == damage_by_second@,
            maximum == best_window(e, k.take(i as int), first, last_start, end_exclusive),
        decreases n - i,
    {
        let second = keys[i];
        assert(k.take(i + 1).drop_last() =~= k.take(i as int));
        if second >= first && second < end_exclusive {
            let raw = sat_sub_i64(second, BURST_WINDOW_SECONDS - 1);
            let start = if raw < first {
                first
            } else if raw > last_start {
                last_start
            } else {
                raw
            };
            let end = sat_add_i64(start, BURST_WINDOW_SECONDS - 1);
            let w = damage_by_second.sum_range(start, end);
            if w > maximum {
                maximum = w;
            }
        }
        i = i + 1;
    }
    assert(k.take(n as int) =~= k);
    Some(maximum)
}


// ---------------------------------------------------------------------------
// Snapshot
// ---------------------------------------------------------------------------

/// What the user interface and the chat box read of the analysis.
#[derive(Debug)]
pub struct GameSnapshot {
    pub phase: RoundPhase,
    /// Latest complete-second personal DPS anywhere in the visit.
    pub realtime_dps: u64,
    /// Whether the visit-wide stream has observed a damage record.
    pub has_realtime_dps_data: bool,
    /// Visit-wide one-second DPS series.
    pub dps_history: Vec<DpsHistoryPoint>,
    pub latest_dps: u64,
    /// Damage of the last thirty complete seconds, per second.
    pub average_dps: Ratio,
    pub round_average_dps: Ratio,
    pub round_effective_dps: Ratio,
    pub round_burst_10s_dps: Option<Ratio>,
    pub round_damage_taken: u64,
    /// Highest complete-second DPS of the visit.
    pub max_dps: u64,
    /// Whether a damage record was observed during this visit.
    pub has_max_dps_data: bool,
    /// Personal round metrics are valid only after a lobby marker followed
    /// by a stage marker.
    pub round_metrics_active: bool,
    /// The completed round, kept while the player is in the lobby.
    pub round_report: Option<RoundReport>,
    pub has_step_estimate: bool,
    pub current_step: u32,
    pub until_boss_step: u32,
    /// Whether a damage record was observed in this combat.
    pub has_damage_data: bool,
    /// More than 50 incoming damage in the rolling ten-second window.
    pub rapid_damage_danger: bool,
    /// An active player has dealt no damage for ten seconds.
    pub no_dps_for_10s: bool,
    pub wasd_listener_available: bool,
    pub no_wasd_for_10s: bool,
    /// Whether a heart-rate sender is online.
    pub has_heart_rate: bool,
    /// Latest heart rate, zero when unknown.
    pub heart_rate: u16,
    /// Identity of the combat round, used to reset round-scoped state.
    pub combat_round_epoch: u64,
    pub boss_lock: Option<String>,
    pub boss: Option<String>,
    pub in_ecliptica: bool,
    pub boss_active: bool,
    pub status: DataStatus,
    pub source: Option<String>,
    pub data_quality: DataQuality,
}

pub open spec fn opt_view(o: Option<String>) -> Option<Seq<char>> {
    match o {
        Some(s) => Some(s@),
        None => None,
    }
}

/// The content of a [`GameSnapshot`].
#[verifier::ext_equal]
pub struct SnapshotView {
    pub phase: RoundPhase,
    pub realtime_dps: u64,
    pub has_realtime_dps_data: bool,
    pub dps_history: Seq<DpsHistoryPoint>,
    pub latest_dps: u64,
    pub average_dps: Ratio,
    pub round_average_dps: Ratio,
    pub round_effective_dps: Ratio,
    pub round_burst_10s_dps: Option<Ratio>,
    pub round_damage_taken: u64,
    pub max_dps: u64,
    pub has_max_dps_data: bool,
    pub round_metrics_active: bool,
    pub round_report: Option<RoundReport>,
    pub has_step_estimate: bool,
    pub current_step: u32,
    pub until_boss_step: u32,
    pub has_damage_data: bool,
    pub rapid_damage_danger: bool,
    pub no_dps_for_10s: bool,
    pub wasd_listener_available: bool,
    pub no_wasd_for_10s: bool,
    pub has_heart_rate: bool,
    pub heart_rate: u16,
    pub combat_round_epoch: u64,
    pub boss_lock: Option<Seq<char>>,
    pub boss: Option<Seq<char>>,
    pub in_ecliptica: bool,
    pub boss_active: bool,
    pub status: DataStatus,
    pub source: Option<Seq<char>>,
    pub degraded: bool,
    pub issues: Seq<IssueView>,
}

impl GameSnapshot {
    pub open spec fn view(&self) -> SnapshotView {
        SnapshotView {
            phase: self.phase,
            realtime_dps: self.realtime_dps,
            has_realtime_dps_data: self.has_realtime_dps_data,
            dps_history: self.dps_history@,
            latest_dps: self.latest_dps,
            average_dps: self.average_dps,
            round_average_dps: self.round_average_dps,
            round_effective_dps: self.round_effective_dps,
            round_burst_10s_dps: self.round_burst_10s_dps,
            round_damage_taken: self.round_damage_taken,
            max_dps: self.max_dps,
            has_max_dps_data: self.has_max_dps_data,
            round_metrics_active: self.round_metrics_active,
            round_report: self.round_report,
            has_step_estimate: self.has_step_estimate,
            current_step: self.current_step,
            until_boss_step: self.until_boss_step,
            has_damage_data: self.has_damage_data,
            rapid_damage_danger: self.rapid_damage_danger,
            no_dps_for_10s: self.no_dps_for_10s,
            wasd_listener_available: self.wasd_listener_available,
            no_wasd_for_10s: self.no_wasd_for_10s,
            has_heart_rate: self.has_heart_rate,
            heart_rate: self.heart_rate,
            combat_round_epoch: self.combat_round_epoch,
            boss_lock: opt_view(self.boss_lock),
            boss: opt_view(self.boss),
            in_ecliptica: self.in_ecliptica,
            boss_active: self.boss_active,
            status: self.status,
            source: opt_view(self.source),
            degraded: self.data_quality.degraded,
            issues: issues_view(self.data_quality.issues@),
        }
    }

    /// The snapshot outside Ecliptica with no data.
    pub open spec fn initial_view() -> SnapshotView {
        SnapshotView {
            phase: RoundPhase::Outside,
            realtime_dps: 0,
            has_realtime_dps_data: false,
            dps_history: Seq::empty(),
            latest_dps: 0,
            average_dps: zero_ratio(),
            round_average_dps: zero_ratio(),
            round_effective_dps: zero_ratio(),
            round_burst_10s_dps: None,
            round_damage_taken: 0,
            max_dps: 0,
            has_max_dps_data: false,
            round_metrics_active: false,
            round_report: None,
            has_step_estimate: false,
            current_step: 0,
            until_boss_step: 0,
            has_damage_data: false,
            rapid_damage_danger: false,
            no_dps_for_10s: false,
            wasd_listener_available: false,
            no_wasd_for_10s: false,
            has_heart_rate: false,
            heart_rate: 0,
            combat_round_epoch: 0,
            boss_lock: None,
            boss: None,
            in_ecliptica: false,
            boss_active: false,
            status: DataStatus::Searching,
            source: None,
            degraded: false,
            issues: Seq::empty(),
        }
    }

    /// The snapshot outside Ecliptica with no data.
    pub fn new() -> (r: Self)
        ensures
            r@ == Self::initial_view(),
    {
        let r = GameSnapshot {
            phase: RoundPhase::Outside,
            realtime_dps: 0,
            has_realtime_dps_data: false,
            dps_history: Vec::new(),
            latest_dps: 0,
            average_dps: Ratio { numerator: 0, denominator: 1 },
            round_average_dps: Ratio { numerator: 0, denominator: 1 },
            round_effective_dps: Ratio { numerator: 0, denominator: 1 },
            round_burst_10s_dps: None,
            round_damage_taken: 0,
            max_dps: 0,
            has_max_dps_data: false,
            round_metrics_active: false,
            round_report: None,
            has_step_estimate: false,
            current_step: 0,
            until_boss_step: 0,
            has_damage_data: false,
            rapid_damage_danger: false,
            no_dps_for_10s: false,
            wasd_listener_available: false,
            no_wasd_for_10s: false,
            has_heart_rate: false,
            heart_rate: 0,
            combat_round_epoch: 0,
            boss_lock: None,
            boss: None,
            in_ecliptica: false,
            boss_active: false,
            status: DataStatus::Searching,
            source: None,
            data_quality: DataQuality { degraded: false, issues: Vec::new() },
        };
        assert(r@ =~= Self::initial_view());
        r
    }

    /// The realtime DPS, or `-` before any damage of this visit.
    pub fn realtime_dps_text(&self) -> (r: String)
        ensures
            r@ == count_or_missing(self.has_realtime_dps_data, self.realtime_dps),
    {
        count_text(self.has_realtime_dps_data, self.realtime_dps)
    }

    /// The latest DPS of the round, or `-` before its first damage.
    pub fn latest_dps_text(&self) -> (r: String)
        ensures
            r@ == count_or_missing(self.has_damage_data, self.latest_dps),
    {
        count_text(self.has_damage_data, self.latest_dps)
    }

    /// The visit's highest DPS, or `-` before any record.
    pub fn max_dps_text(&self) -> (r: String)
        ensures
            r@ == count_or_missing(self.has_max_dps_data, self.max_dps),
    {
        count_text(self.has_max_dps_data, self.max_dps)
    }

    /// An equal, independent snapshot.
    pub fn duplicate(&self) -> (r: Self)
        ensures
            r@ == self@,
    {
        let mut history: Vec<DpsHistoryPoint> = Vec::new();
        let mut i: usize = 0;
        while i < self.dps_history.len()
            invariant
                i <= self.dps_history@.len(),
                history@ == self.dps_history@.take(i as int),
            decreases self.dps_history@.len() - i,
        {
            history.push(self.dps_history[i]);
            i = i + 1;
            assert(history@ =~= self.dps_history@.take(i as int));
        }
        assert(history@ =~= self.dps_history@);
        let issues = copy_issues(&self.data_quality.issues);
        let r = GameSnapshot {
            phase: self.phase,
            realtime_dps: self.realtime_dps,
            has_realtime_dps_data: self.has_realtime_dps_data,
            dps_history: history,
            latest_dps: self.latest_dps,
            average_dps: self.average_dps,
            round_average_dps: self.round_average_dps,
            round_effective_dps: self.round_effective_dps,
            round_burst_10s_dps: self.round_burst_10s_dps,
            round_damage_taken: self.round_damage_taken,
            max_dps: self.max_dps,
            has_max_dps_data: self.has_max_dps_data,
            round_metrics_active: self.round_metrics_active,
            round_report: self.round_report,
            has_step_estimate: self.has_step_estimate,
            current_step: self.current_step,
            until_boss_step: self.until_boss_step,
            has_damage_data: self.has_damage_data,
            rapid_damage_danger: self.rapid_damage_danger,
            no_dps_for_10s: self.no_dps_for_10s,
            wasd_listener_available: self.wasd_listener_available,
            no_wasd_for_10s: self.no_wasd_for_10s,
            has_heart_rate: self.has_heart_rate,
            heart_rate: self.heart_rate,
            combat_round_epoch: self.combat_round_epoch,
            boss_lock: clone_opt(&self.boss_lock),
            boss: clone_opt(&self.boss),
            in_ecliptica: self.in_ecliptica,
            boss_active: self.boss_active,
            status: self.status,
            source: clone_opt(&self.source),
            data_quality: DataQuality { degraded: self.data_quality.degraded, issues },
        };
        assert(r@ =~= self@);
        r
    }
}

/// An equal, independent list of issues.
pub fn copy_issues(v: &Vec<DataQualityIssue>) -> (r: Vec<DataQualityIssue>)
    ensures
        issues_view(r@) == issues_view(v@),
{
    let mut issues: Vec<DataQualityIssue> = Vec::new();
    let mut j: usize = 0;
    while j < v.len()
        invariant
            j <= v@.len(),
            issues@.len() == j,
            forall|k: int| 0 <= k < j ==> #[trigger] issues@[k].view() == v@[k].view(),
        decreases v@.len() - j,
    {
        let issue = &v[j];
        let copy = DataQualityIssue {
            code: issue.code,
            message: issue.message.clone(),
            occurrences: issue.occurrences,
        };
        issues.push(copy);
        j = j + 1;
    }
    assert(issues_view(issues@) =~= issues_view(v@));
    issues
}

impl Default for GameSnapshot {
    fn default() -> (r: Self)
        ensures
            r@ == GameSnapshot::initial_view(),
    {
        GameSnapshot::new()
    }
}

fn clone_opt(o: &Option<String>) -> (r: Option<String>)
    ensures
        opt_view(r) == opt_view(*o),
{
    match o {
        Some(s) => Some(s.clone()),
        None => None,
    }
}


// ---------------------------------------------------------------------------
// The analyzer's model
// ---------------------------------------------------------------------------

/// The content of an [`Analyzer`]: the snapshot it publishes and the
/// per-second buckets and round bookkeeping behind it.
#[verifier::ext_equal]
pub struct AnalyzerModel {
    pub snapshot: SnapshotView,
    pub realtime: Seq<(i64, u64)>,
    pub damage: Seq<(i64, u64)>,
    pub round_damage: Seq<(i64, u64)>,
    pub taken: Seq<(i64, u64)>,
    pub last_nonzero_dps: Option<(i64, u64)>,
    pub last_nonzero_realtime_dps: Option<(i64, u64)>,
    pub dps_idle_since: Option<i64>,
    pub round_first_damage_second: Option<i64>,
    pub round_started_second: Option<i64>,
    pub round_damage_total: u64,
    pub round_damage_taken_total: u64,
    pub round_max_dps: u64,
    pub round_baseline_ready: bool,
    pub visit_started_second: Option<i64>,
    pub history_through_second: Option<i64>,
    pub previous_round_effective_dps: Option<Ratio>,
    /// Whether a protocol diagnostic was recorded in this visit.
    pub degraded: bool,
    /// Aggregated protocol issues of the visit, ordered by code.
    pub issues: Seq<IssueView>,
    /// First occurrences not yet taken by the runtime.
    pub pending: Seq<(DiagnosticCode, Seq<char>)>,
}

pub open spec fn initial_model() -> AnalyzerModel {
    AnalyzerModel {
        snapshot: GameSnapshot::initial_view(),
        realtime: Seq::empty(),
        damage: Seq::empty(),
        round_damage: Seq::empty(),
        taken: Seq::empty(),
        last_nonzero_dps: None,
        last_nonzero_realtime_dps: None,
        dps_idle_since: None,
        round_first_damage_second: None,
        round_started_second: None,
        round_damage_total: 0,
        round_damage_taken_total: 0,
        round_max_dps: 0,
        round_baseline_ready: false,
        visit_started_second: None,
        history_through_second: None,
        previous_round_effective_dps: None,
        degraded: false,
        issues: Seq::empty(),
        pending: Seq::empty(),
    }
}

/// Issues strictly ordered by code (the alphabetical order of the labels).
#[verifier::opaque]
pub open spec fn issues_ordered(s: Seq<IssueView>) -> bool {
    forall|i: int, j: int| 0 <= i < j < s.len() ==> s[i].code.rank() < s[j].code.rank()
}

/// Index of the first issue whose code does not sort before `code`.
pub open spec fn issue_position(s: Seq<IssueView>, code: DiagnosticCode) -> int
    decreases s.len(),
{
    if s.len() == 0 {
        0
    } else if s.last().code.rank() < code.rank() {
        s.len() as int
    } else {
        issue_position(s.drop_last(), code)
    }
}

#[verifier::opaque]
pub open spec fn has_issue(s: Seq<IssueView>, code: DiagnosticCode) -> bool {
    exists|i: int| 0 <= i < s.len() && s[i].code == code
}

/// The aggregate after one more occurrence of `code`: its counter grows by
/// one, or a new issue with `message` and one occurrence is inserted in order.
#[verifier::opaque]
pub open spec fn issue_recorded(s: Seq<IssueView>, code: DiagnosticCode, message: Seq<char>) -> Seq<
    IssueView,
> {
    let i = issue_position(s, code);
    if i < s.len() && s[i].code == code {
        s.update(
            i,
            IssueView {
                code: s[i].code,
                message: s[i].message,
                occurrences: sat_add(s[i].occurrences, 1),
            },
        )
    } else {
        s.insert(i, IssueView { code, message, occurrences: 1 })
    }
}

pub open spec fn next_epoch(e: u64) -> u64 {
    if e == u64::MAX {
        1
    } else {
        (e + 1) as u64
    }
}

pub open spec fn total_at(e: Seq<(i64, u64)>, second: i64) -> u64 {
    match value_at(e, second) {
        Some(v) => v,
        None => 0,
    }
}

pub open spec fn clear_boss_m(m: AnalyzerModel) -> AnalyzerModel {
    AnalyzerModel {
        snapshot: SnapshotView { boss_active: false, boss: None, boss_lock: None, ..m.snapshot },
        ..m
    }
}

/// Live fields fail closed after a diagnostic of their signal.
#[verifier::opaque]
pub open spec fn diagnostic_effect(m: AnalyzerModel, code: DiagnosticCode) -> AnalyzerModel {
    match code {
        DiagnosticCode::Damage => AnalyzerModel {
            snapshot: SnapshotView {
                has_damage_data: false,
                has_realtime_dps_data: false,
                latest_dps: 0,
                realtime_dps: 0,
                ..m.snapshot
            },
            ..m
        },
        DiagnosticCode::Boss => clear_boss_m(m),
        DiagnosticCode::BossDefeated => clear_boss_m(m),
        DiagnosticCode::Ownership => AnalyzerModel {
            snapshot: SnapshotView { boss_lock: None, ..m.snapshot },
            ..m
        },
        _ => m,
    }
}

/// Recording a protocol diagnostic: the signal's live fields fail closed,
/// the aggregate counts it, and its first occurrence is queued.
pub open spec fn record_diagnostic_m(m: AnalyzerModel, code: DiagnosticCode, message: Seq<char>) -> AnalyzerModel {
    let m1 = diagnostic_effect(m, code);
    AnalyzerModel {
        degraded: true,
        issues: issue_recorded(m1.issues, code, message),
        pending: if has_issue(m1.issues, code) {
            m1.pending
        } else {
            m1.pending.push((code, message))
        },
        ..m1
    }
}

/// Discarding the round-scoped state; the round peak is archived into the
/// visit maximum first.
pub open spec fn reset_combat_m(m: AnalyzerModel) -> AnalyzerModel {
    clear_boss_m(
        AnalyzerModel {
            snapshot: SnapshotView {
                max_dps: max_u64(m.snapshot.max_dps, m.round_max_dps),
                latest_dps: 0,
                average_dps: zero_ratio(),
                round_average_dps: zero_ratio(),
                round_effective_dps: zero_ratio(),
                round_burst_10s_dps: None,
                round_damage_taken: 0,
                has_damage_data: false,
                rapid_damage_danger: false,
                no_dps_for_10s: false,
                round_metrics_active: false,
                has_step_estimate: false,
                current_step: 0,
                until_boss_step: 0,
                ..m.snapshot
            },
            damage: Seq::empty(),
            round_damage: Seq::empty(),
            taken: Seq::empty(),
            last_nonzero_dps: None,
            dps_idle_since: None,
            round_first_damage_second: None,
            round_started_second: None,
            round_damage_total: 0,
            round_damage_taken_total: 0,
            round_max_dps: 0,
            ..m
        },
    )
}

/// Everything of the visit is cleared.
pub open spec fn reset_all_m(m: AnalyzerModel) -> AnalyzerModel {
    let m1 = reset_combat_m(m);
    AnalyzerModel {
        snapshot: SnapshotView {
            realtime_dps: 0,
            has_realtime_dps_data: false,
            dps_history: Seq::empty(),
            max_dps: 0,
            has_max_dps_data: false,
            round_report: None,
            in_ecliptica: false,
            phase: RoundPhase::Outside,
            ..m1.snapshot
        },
        realtime: Seq::empty(),
        last_nonzero_realtime_dps: None,
        round_baseline_ready: false,
        visit_started_second: None,
        history_through_second: None,
        previous_round_effective_dps: None,
        degraded: false,
        issues: Seq::empty(),
        pending: Seq::empty(),
        ..m1
    }
}

pub open spec fn start_round_m(m: AnalyzerModel, second: i64) -> AnalyzerModel {
    let m1 = reset_combat_m(m);
    AnalyzerModel {
        snapshot: SnapshotView {
            combat_round_epoch: next_epoch(m1.snapshot.combat_round_epoch),
            round_report: None,
            round_metrics_active: true,
            ..m1.snapshot
        },
        round_started_second: Some(second),
        dps_idle_since: Some(second),
        ..m1
    }
}

pub open spec fn start_untracked_round_m(m: AnalyzerModel) -> AnalyzerModel {
    let m1 = reset_combat_m(m);
    AnalyzerModel {
        snapshot: SnapshotView {
            combat_round_epoch: next_epoch(m1.snapshot.combat_round_epoch),
            round_report: None,
            ..m1.snapshot
        },
        ..m1
    }
}

/// Seconds from `start` to `second`, at least one.
pub open spec fn span_seconds(start: Option<i64>, second: i64) -> u64 {
    match start {
        Some(s) => max_i64(clamp_i64(second - s), 1) as u64,
        None => 1,
    }
}

/// The previous round's effective DPS when the growth rate can be computed.
pub open spec fn comparable_previous(previous: Option<Ratio>) -> Option<Ratio> {
    match previous {
        Some(p) => if p.numerator > 0 {
            Some(p)
        } else {
            None
        },
        None => None,
    }
}

pub open spec fn burst_ratio(w: Option<u64>) -> Option<Ratio> {
    match w {
        Some(v) => Some(Ratio { numerator: v, denominator: BURST_WINDOW_SECONDS as u64 }),
        None => None,
    }
}

#[verifier::opaque]
pub open spec fn report_of(m: AnalyzerModel, second: i64) -> RoundReport {
    let end = metric_end(m.round_damage, second);
    let eff = max_u64(effective_seconds(m.round_damage, end), 1);
    RoundReport {
        has_duration_data: m.round_started_second is Some,
        has_output_data: m.round_first_damage_second is Some,
        duration_seconds: span_seconds(m.round_started_second, second),
        total_damage: m.round_damage_total,
        average_dps: Ratio {
            numerator: m.round_damage_total,
            denominator: span_seconds(m.round_first_damage_second, second),
        },
        max_dps: m.round_max_dps,
        effective_dps: Ratio { numerator: m.round_damage_total, denominator: eff },
        burst_10s_dps: burst_ratio(burst_window(m.round_damage, m.round_first_damage_second, end)),
        previous_effective_dps: if m.round_first_damage_second is Some {
            comparable_previous(m.previous_round_effective_dps)
        } else {
            None
        },
        damage_taken: m.round_damage_taken_total,
        has_longest_standstill_data: false,
        longest_standstill_seconds: 0,
    }
}

pub open spec fn combat_metrics_missing_message() -> Seq<char> {
    "完整阶段内未观察到输出或承伤日志；数值按 0/未知处理（可能确实无伤害，也可能是游戏停止打印相关日志）"@
}

pub open spec fn intermission_missing_message() -> Seq<char> {
    "战斗中直接观察到下一阶段，未观察到 intermission/lobby 日志；上一回合按不完整数据丢弃并安全开始新回合"@
}

/// Archiving the round that ends at `second`. A round without output and
/// without incoming damage gets no report; a complete one of that kind is a
/// diagnostic.
pub open spec fn finish_round_m(m: AnalyzerModel, second: i64) -> AnalyzerModel {
    if m.round_first_damage_second is Some || m.round_damage_taken_total > 0 {
        reset_combat_m(archive_round_m(m, second))
    } else {
        reset_combat_m(discard_round_m(m))
    }
}

pub open spec fn with_report_m(m: AnalyzerModel, report: Option<RoundReport>) -> AnalyzerModel {
    AnalyzerModel { snapshot: SnapshotView { round_report: report, ..m.snapshot }, ..m }
}

pub open spec fn with_previous_m(m: AnalyzerModel, previous: Option<Ratio>) -> AnalyzerModel {
    AnalyzerModel { previous_round_effective_dps: previous, ..m }
}

/// The comparison base of the next round after archiving `report`: its
/// effective DPS when the round start was observed and it had output.
pub open spec fn next_previous(m: AnalyzerModel, report: RoundReport) -> Option<Ratio> {
    if m.round_started_second is Some {
        if m.round_first_damage_second is Some {
            Some(report.effective_dps)
        } else {
            None
        }
    } else {
        m.previous_round_effective_dps
    }
}

/// The report of the round is published; its effective DPS becomes the
/// comparison base of the next round when the round start was observed.
pub open spec fn archive_round_m(m: AnalyzerModel, second: i64) -> AnalyzerModel {
    let report = report_of(m, second);
    with_previous_m(with_report_m(m, Some(report)), next_previous(m, report))
}

/// No report; a complete round without any damage record is a diagnostic.
pub open spec fn discard_round_m(m: AnalyzerModel) -> AnalyzerModel {
    let m1 = with_report_m(m, None);
    if m.round_started_second is Some {
        record_diagnostic_m(
            with_previous_m(m1, None),
            DiagnosticCode::CombatMetricsMissing,
            combat_metrics_missing_message(),
        )
    } else {
        m1
    }
}

/// Combat identity recorded in the history: the epoch in combat, else zero.
pub open spec fn history_epoch(m: AnalyzerModel) -> u64 {
    if m.snapshot.phase == RoundPhase::Combat {
        m.snapshot.combat_round_epoch
    } else {
        0
    }
}

/// Step recorded in the history: the estimate in combat, when known.
pub open spec fn history_step(m: AnalyzerModel) -> Option<u32> {
    if m.snapshot.phase == RoundPhase::Combat && m.snapshot.has_step_estimate {
        Some(m.snapshot.current_step)
    } else {
        None
    }
}

/// One point of the DPS history.
pub open spec fn history_point(
    realtime: Seq<(i64, u64)>,
    epoch: u64,
    step: Option<u32>,
    second: i64,
    start: i64,
) -> DpsHistoryPoint {
    DpsHistoryPoint {
        elapsed_seconds: clamp_i64(second - start) as u64,
        dps: total_at(realtime, second),
        combat_round_epoch: epoch,
        estimated_step: step,
    }
}

/// The points of the seconds `first, first + 1, ...`, `count` of them.
#[verifier::opaque]
pub open spec fn history_points(
    realtime: Seq<(i64, u64)>,
    epoch: u64,
    step: Option<u32>,
    first: i64,
    count: int,
    start: i64,
) -> Seq<DpsHistoryPoint> {
    Seq::new(
        count as nat,
        |i: int| history_point(realtime, epoch, step, (first + i) as i64, start),
    )
}

/// The first second not yet in the history.
pub open spec fn history_first(m: AnalyzerModel, start: i64) -> i64 {
    match m.history_through_second {
        Some(last) => clamp_i64(last + 1),
        None => start,
    }
}

/// The history with the seconds `first..=through` appended, marked as
/// extended through `through`.
pub open spec fn history_extended_m(m: AnalyzerModel, through: i64, start: i64, first: i64) -> AnalyzerModel {
    let count = if first <= through {
        through - first + 1
    } else {
        0
    };
    AnalyzerModel {
        snapshot: SnapshotView {
            dps_history: m.snapshot.dps_history + history_points(
                m.realtime,
                history_epoch(m),
                history_step(m),
                first,
                count,
                start,
            ),
            ..m.snapshot
        },
        history_through_second: Some(through),
        ..m
    }
}

/// Extending the visit's DPS history through `through` (one point per
/// second, zero where nothing was recorded).
pub open spec fn update_history_m(m: AnalyzerModel, through: i64) -> AnalyzerModel {
    match m.visit_started_second {
        None => m,
        Some(start) => if through < start || clamp_i64(through - start) > HISTORY_LIMIT_SECONDS {
            m
        } else {
            history_extended_m(m, through, start, history_first(m, start))
        },
    }
}

/// Leaving the room: the history through `second` and the data quality of
/// the visit stay visible; everything else is cleared.
pub open spec fn finish_visit_m(m: AnalyzerModel, second: i64) -> AnalyzerModel {
    let m1 = update_history_m(m, second);
    let m2 = reset_all_m(m1);
    AnalyzerModel {
        snapshot: SnapshotView { dps_history: m1.snapshot.dps_history, ..m2.snapshot },
        degraded: m1.degraded,
        issues: m1.issues,
        pending: m1.pending,
        ..m2
    }
}

pub open spec fn with_estimate(m: AnalyzerModel, estimate: Option<StepEstimate>) -> AnalyzerModel {
    match estimate {
        Some(e) => AnalyzerModel {
            snapshot: SnapshotView {
                has_step_estimate: true,
                current_step: e.current,
                until_boss_step: e.until_boss,
                ..m.snapshot
            },
            ..m
        },
        None => m,
    }
}

pub open spec fn with_phase_m(m: AnalyzerModel, in_ecliptica: bool, phase: RoundPhase) -> AnalyzerModel {
    AnalyzerModel { snapshot: SnapshotView { in_ecliptica, phase, ..m.snapshot }, ..m }
}

pub open spec fn with_baseline_m(m: AnalyzerModel, ready: bool) -> AnalyzerModel {
    AnalyzerModel { round_baseline_ready: ready, ..m }
}

pub open spec fn with_visit_m(m: AnalyzerModel, second: i64) -> AnalyzerModel {
    AnalyzerModel { visit_started_second: Some(second), ..m }
}

/// The final boss is dead: the run is over and no step is estimated.
pub open spec fn run_ended_m(m: AnalyzerModel) -> AnalyzerModel {
    AnalyzerModel {
        snapshot: SnapshotView {
            phase: RoundPhase::Lobby,
            has_step_estimate: false,
            current_step: 0,
            until_boss_step: 0,
            ..m.snapshot
        },
        ..m
    }
}

pub open spec fn with_boss_m(m: AnalyzerModel, name: Seq<char>) -> AnalyzerModel {
    AnalyzerModel {
        snapshot: SnapshotView {
            in_ecliptica: true,
            phase: RoundPhase::Combat,
            boss_active: true,
            boss_lock: None,
            boss: Some(name),
            ..m.snapshot
        },
        ..m
    }
}

pub open spec fn with_lock_m(m: AnalyzerModel, player: Seq<char>) -> AnalyzerModel {
    AnalyzerModel { snapshot: SnapshotView { boss_lock: Some(player), ..m.snapshot }, ..m }
}

pub open spec fn stage_m(m: AnalyzerModel, second: i64, estimate: Option<StepEstimate>) -> AnalyzerModel {
    let m1 = update_history_m(m, clamp_i64(second - 1));
    let m2 = if m1.snapshot.phase == RoundPhase::Combat && m1.round_started_second is Some {
        record_diagnostic_m(m1, DiagnosticCode::IntermissionMissing, intermission_missing_message())
    } else {
        m1
    };
    let m3 = if m2.round_baseline_ready {
        start_round_m(m2, second)
    } else {
        start_untracked_round_m(m2)
    };
    with_baseline_m(with_phase_m(with_estimate(m3, estimate), true, RoundPhase::Combat), false)
}

pub open spec fn intermission_m(m: AnalyzerModel, second: i64, estimate: Option<StepEstimate>) -> AnalyzerModel {
    let m1 = update_history_m(m, clamp_i64(second - 1));
    let m2 = if m1.snapshot.round_metrics_active {
        with_estimate(finish_round_m(m1, second), estimate)
    } else {
        reset_combat_m(m1)
    };
    with_baseline_m(with_phase_m(m2, true, RoundPhase::Lobby), true)
}

pub open spec fn boss_defeated_m(m: AnalyzerModel, second: i64, name: Seq<char>) -> AnalyzerModel {
    if m.snapshot.phase == RoundPhase::Combat && spec_is_jim_final_phase(name) {
        let m1 = update_history_m(m, clamp_i64(second - 1));
        let m2 = if m1.snapshot.round_metrics_active {
            finish_round_m(m1, second)
        } else {
            reset_combat_m(m1)
        };
        with_baseline_m(run_ended_m(m2), true)
    } else {
        match m.snapshot.boss {
            Some(b) => if spec_boss_object_matches(b, name) {
                clear_boss_m(m)
            } else {
                m
            },
            None => m,
        }
    }
}

pub open spec fn realtime_added_m(m: AnalyzerModel, second: i64, amount: u64) -> AnalyzerModel {
    AnalyzerModel {
        snapshot: SnapshotView { has_realtime_dps_data: true, ..m.snapshot },
        realtime: added(m.realtime, second, amount),
        ..m
    }
}

pub open spec fn round_damage_added_m(m: AnalyzerModel, second: i64, amount: u64) -> AnalyzerModel {
    let damage = added(m.damage, second, amount);
    AnalyzerModel {
        snapshot: SnapshotView { has_damage_data: true, has_max_dps_data: true, ..m.snapshot },
        dps_idle_since: Some(second),
        damage,
        round_damage: added(m.round_damage, second, amount),
        round_max_dps: max_u64(m.round_max_dps, total_at(damage, second)),
        round_started_second: match m.round_started_second {
            Some(s) => Some(s),
            None => Some(second),
        },
        round_first_damage_second: match m.round_first_damage_second {
            Some(s) => Some(s),
            None => Some(second),
        },
        round_damage_total: sat_add(m.round_damage_total, amount),
        ..m
    }
}

pub open spec fn damage_m(m: AnalyzerModel, second: i64, amount: u64) -> AnalyzerModel {
    let m1 = if m.snapshot.in_ecliptica {
        realtime_added_m(m, second, amount)
    } else {
        m
    };
    if m1.snapshot.in_ecliptica && m1.snapshot.round_metrics_active {
        round_damage_added_m(m1, second, amount)
    } else {
        m1
    }
}

pub open spec fn damage_taken_added_m(m: AnalyzerModel, second: i64, amount: u64) -> AnalyzerModel {
    let total = sat_add(m.round_damage_taken_total, amount);
    AnalyzerModel {
        snapshot: SnapshotView { round_damage_taken: total, ..m.snapshot },
        taken: added(m.taken, second, amount),
        round_damage_taken_total: total,
        ..m
    }
}

pub open spec fn damage_taken_m(m: AnalyzerModel, second: i64, amount: u64) -> AnalyzerModel {
    if m.snapshot.in_ecliptica && m.snapshot.round_metrics_active {
        damage_taken_added_m(m, second, amount)
    } else {
        m
    }
}

/// The analyzer after one event. `estimate` is the step estimate after the
/// event has been observed; only stage and lobby events read it.
pub open spec fn event_m(m: AnalyzerModel, event: EventView, estimate: Option<StepEstimate>) -> AnalyzerModel {
    match event {
        EventView::EnterEcliptica(second) => with_visit_m(
            with_phase_m(reset_all_m(m), true, RoundPhase::Syncing),
            second,
        ),
        EventView::LeaveRoom(second) => finish_visit_m(m, second),
        EventView::Stage(second, _) => stage_m(m, second, estimate),
        EventView::Intermission(second) => intermission_m(m, second, estimate),
        EventView::Boss(_, name) => if m.snapshot.phase != RoundPhase::Lobby {
            with_boss_m(m, name)
        } else {
            m
        },
        EventView::BossDefeated(second, name) => boss_defeated_m(m, second, name),
        EventView::Ownership(object, player) => match m.snapshot.boss {
            Some(b) => if m.snapshot.boss_active && spec_boss_object_matches(b, object) {
                with_lock_m(m, player)
            } else {
                m
            },
            None => m,
        },
        EventView::Damage(second, amount) => damage_m(m, second, amount),
        EventView::DamageTaken(second, amount) => damage_taken_m(m, second, amount),
    }
}

/// The analyzer after one parsed line: its diagnostic first, then its event.
pub open spec fn line_m(m: AnalyzerModel, line: LineView, estimate: Option<StepEstimate>) -> AnalyzerModel {
    let m1 = match line.diagnostic {
        Some(d) => record_diagnostic_m(m, d.0, d.1),
        None => m,
    };
    match line.event {
        Some(e) => event_m(m1, e, estimate),
        None => m1,
    }
}

/// A per-second value held for a few seconds after its last non-zero value.
pub open spec fn held_value(
    e: Seq<(i64, u64)>,
    last: Option<(i64, u64)>,
    last_complete: i64,
) -> (u64, Option<(i64, u64)>) {
    match value_at(e, last_complete) {
        Some(v) => (v, if v > 0 {
            Some((last_complete, v))
        } else {
            last
        }),
        None => (match last {
            Some(p) => if clamp_i64(last_complete - p.0) <= LATEST_DPS_HOLD_SECONDS {
                p.1
            } else {
                0
            },
            None => 0,
        }, last),
    }
}

/// Incoming-damage danger and output idleness at `now`; incoming buckets
/// older than the danger window are pruned.
pub open spec fn danger_m(m: AnalyzerModel, now: i64) -> AnalyzerModel {
    let rapid_first = clamp_i64(now - RAPID_DAMAGE_WINDOW_SECONDS);
    let taken = kept_from(m.taken, rapid_first as int);
    let recent = sat_sum(sum_between(taken, rapid_first as int, now as int));
    let no_dps = m.snapshot.round_metrics_active && match m.dps_idle_since {
        Some(s) => clamp_i64(now - s) >= NO_DPS_WINDOW_SECONDS,
        None => false,
    };
    AnalyzerModel {
        snapshot: SnapshotView {
            rapid_damage_danger: recent > RAPID_DAMAGE_DANGER_THRESHOLD,
            no_dps_for_10s: no_dps,
            ..m.snapshot
        },
        taken,
        ..m
    }
}

/// Visit-wide real-time DPS of the last complete second (held briefly).
pub open spec fn realtime_refresh_m(m: AnalyzerModel, last: i64) -> AnalyzerModel {
    let realtime = kept_from(m.realtime, clamp_i64(last - (LATEST_DPS_HOLD_SECONDS + 1)) as int);
    let rt = held_value(realtime, m.last_nonzero_realtime_dps, last);
    AnalyzerModel {
        snapshot: SnapshotView { realtime_dps: rt.0, ..m.snapshot },
        realtime,
        last_nonzero_realtime_dps: rt.1,
        ..m
    }
}

/// Round DPS of the last complete second, the visit peak and the rolling
/// thirty-second average; round buckets older than that window are pruned.
pub open spec fn damage_refresh_m(m: AnalyzerModel, last: i64) -> AnalyzerModel {
    let first = clamp_i64(last - 29);
    let max_dps = match max_upto(m.damage, last as int) {
        Some(v) => max_u64(m.snapshot.max_dps, v),
        None => m.snapshot.max_dps,
    };
    let damage = kept_from(m.damage, clamp_i64(first - 2) as int);
    let lt = held_value(damage, m.last_nonzero_dps, last);
    let total = sat_sum(sum_between(damage, first as int, last as int));
    AnalyzerModel {
        snapshot: SnapshotView {
            max_dps,
            latest_dps: lt.0,
            average_dps: Ratio { numerator: total, denominator: AVERAGE_WINDOW_SECONDS },
            ..m.snapshot
        },
        damage,
        last_nonzero_dps: lt.1,
        ..m
    }
}

/// Round average, effective and burst DPS at `now`.
pub open spec fn round_metrics_m(m: AnalyzerModel, now: i64, last: i64) -> AnalyzerModel {
    let end = metric_end(m.round_damage, now);
    let eff = effective_seconds(m.round_damage, end);
    AnalyzerModel {
        snapshot: SnapshotView {
            round_average_dps: match m.round_first_damage_second {
                Some(f) => Ratio {
                    numerator: m.round_damage_total,
                    denominator: max_i64(clamp_i64(clamp_i64(last - f) + 1), 1) as u64,
                },
                None => zero_ratio(),
            },
            round_effective_dps: if eff > 0 {
                Ratio { numerator: m.round_damage_total, denominator: eff }
            } else {
                zero_ratio()
            },
            round_burst_10s_dps: burst_ratio(
                burst_window(m.round_damage, m.round_first_damage_second, end),
            ),
            round_damage_taken: m.round_damage_taken_total,
            ..m.snapshot
        },
        ..m
    }
}

/// The analyzer after publishing a snapshot at `now`: old buckets pruned,
/// history extended through the last complete second, time-dependent
/// fields refreshed.
pub open spec fn snapshot_m(m: AnalyzerModel, now: i64) -> AnalyzerModel {
    let last = clamp_i64(now - 1);
    round_metrics_m(
        damage_refresh_m(realtime_refresh_m(update_history_m(danger_m(m, now), last), last), last),
        now,
        last,
    )
}

/// The snapshot as published: the visit's data quality attached.
pub open spec fn published(m: AnalyzerModel) -> SnapshotView {
    SnapshotView { degraded: m.degraded, issues: m.issues, ..m.snapshot }
}


// ---------------------------------------------------------------------------
// Laws of the analysis
// ---------------------------------------------------------------------------

/// A new stage always clears the report archived in the lobby, gets the next
/// combat epoch (wrapping from the largest back to one), and personal round
/// metrics become active exactly when a lobby marker came first.
pub proof fn law_stage_clears_report_and_needs_lobby_baseline(
    m: AnalyzerModel,
    second: i64,
    estimate: Option<StepEstimate>,
)
    ensures
        stage_m(m, second, estimate).snapshot.round_report is None,
        stage_m(m, second, estimate).snapshot.phase == RoundPhase::Combat,
        stage_m(m, second, estimate).snapshot.combat_round_epoch == next_epoch(m.snapshot.combat_round_epoch),
        stage_m(m, second, estimate).snapshot.round_metrics_active == update_history_m(
            m,
            clamp_i64(second - 1),
        ).round_baseline_ready,
        !stage_m(m, second, estimate).round_baseline_ready,
{
    reveal(diagnostic_effect);
}

/// Entering Ecliptica starts a fresh visit: nothing of an earlier visit or
/// round survives.
pub proof fn law_entering_clears_everything(m: AnalyzerModel, second: i64, estimate: Option<StepEstimate>)
    ensures
        ({
            let n = event_m(m, EventView::EnterEcliptica(second), estimate);
            &&& n.snapshot.phase == RoundPhase::Syncing
            &&& n.snapshot.in_ecliptica
            &&& n.snapshot.dps_history.len() == 0
            &&& n.snapshot.round_report is None
            &&& n.snapshot.max_dps == 0
            &&& !n.snapshot.has_max_dps_data
            &&& !n.snapshot.round_metrics_active
            &&& n.snapshot.boss is None
            &&& n.snapshot.boss_lock is None
            &&& !n.snapshot.boss_active
            &&& !n.snapshot.has_damage_data
            &&& n.issues.len() == 0
            &&& !n.degraded
            &&& n.pending.len() == 0
            &&& n.realtime.len() == 0
            &&& n.damage.len() == 0
            &&& n.round_damage.len() == 0
            &&& n.visit_started_second == Some(second)
        }),
{
}

/// A line that enters Ecliptica starts a fresh visit at whatever second its
/// timestamp reads, in any earlier state: syncing in the world with no
/// damage, peak, report, boss, lock or degradation. When its timestamp
/// cannot be read the line changes no live state and only records that.
pub proof fn law_entry_line_starts_fresh_visit(
    m: AnalyzerModel,
    line: Seq<char>,
    second: Option<i64>,
    estimate: Option<StepEstimate>,
)
    requires
        crate::text::contains_seq(line, crate::log_protocol::enter_ecliptica_marker()),
    ensures
        ({
            let n = line_m(m, crate::log_protocol::classify(line, second), estimate);
            match second {
                Some(t) => {
                    &&& n.snapshot.phase == RoundPhase::Syncing
                    &&& n.snapshot.in_ecliptica
                    &&& !n.snapshot.round_metrics_active
                    &&& !n.snapshot.has_damage_data
                    &&& n.snapshot.max_dps == 0
                    &&& !n.snapshot.has_max_dps_data
                    &&& n.snapshot.round_report is None
                    &&& n.snapshot.boss is None
                    &&& n.snapshot.boss_lock is None
                    &&& !n.snapshot.boss_active
                    &&& !n.degraded
                    &&& n.visit_started_second == Some(t)
                },
                None => {
                    &&& n.snapshot == m.snapshot
                    &&& n.visit_started_second == m.visit_started_second
                    &&& n.degraded
                },
            }
        }),
{
    reveal(diagnostic_effect);
}

/// A stage line (one that carries no room or lobby marker) clears the
/// archived report, enters combat with the next combat epoch, and tracks
/// personal round metrics exactly when the lobby baseline was set before
/// it. When its timestamp cannot be read it changes no live state.
pub proof fn law_stage_line_starts_a_round(
    m: AnalyzerModel,
    line: Seq<char>,
    second: Option<i64>,
    estimate: Option<StepEstimate>,
)
    requires
        crate::text::contains_seq(line, crate::log_protocol::stage_marker()),
        !crate::text::contains_seq(line, crate::log_protocol::enter_ecliptica_marker()),
        !crate::text::contains_seq(line, crate::log_protocol::enter_room_marker()),
        !crate::text::contains_seq(line, crate::log_protocol::leave_room_marker()),
        !crate::text::contains_seq(line, crate::log_protocol::intermission_marker()),
        !crate::text::contains_seq(line, crate::log_protocol::lobby_marker()),
    ensures
        ({
            let n = line_m(m, crate::log_protocol::classify(line, second), estimate);
            match second {
                Some(t) => {
                    &&& n.snapshot.round_report is None
                    &&& n.snapshot.phase == RoundPhase::Combat
                    &&& n.snapshot.in_ecliptica
                    &&& n.snapshot.combat_round_epoch == next_epoch(m.snapshot.combat_round_epoch)
                    &&& n.snapshot.round_metrics_active == m.round_baseline_ready
                    &&& !n.round_baseline_ready
                },
                None => n.snapshot == m.snapshot,
            }
        }),
{
    reveal(diagnostic_effect);
    match second {
        Some(t) => {
            let lv = crate::log_protocol::classify(line, second);
            let m1 = match lv.diagnostic {
                Some(d) => record_diagnostic_m(m, d.0, d.1),
                None => m,
            };
            law_stage_clears_report_and_needs_lobby_baseline(m1, t, estimate);
        },
        None => {},
    }
}

/// Leaving the room keeps the visit's DPS history and data quality visible
/// until the next entry, and clears everything else.
pub proof fn law_leaving_keeps_history_and_quality(m: AnalyzerModel, second: i64, estimate: Option<StepEstimate>)
    ensures
        ({
            let n = event_m(m, EventView::LeaveRoom(second), estimate);
            &&& n.snapshot.dps_history == update_history_m(m, second).snapshot.dps_history
            &&& n.issues == m.issues
            &&& n.degraded == m.degraded
            &&& n.snapshot.phase == RoundPhase::Outside
            &&& !n.snapshot.in_ecliptica
            &&& n.snapshot.round_report is None
            &&& n.visit_started_second is None
        }),
{
}

/// The visit that started at second `start` holds its DPS history through
/// second `through`: one point per second, the point of second `start + i`
/// at position `i`, none missing or repeated.
pub open spec fn history_covers(m: AnalyzerModel, start: i64, through: i64) -> bool {
    &&& m.visit_started_second == Some(start)
    &&& m.history_through_second == Some(through)
    &&& m.snapshot.dps_history.len() == through - start + 1
    &&& forall|i: int|
        0 <= i < m.snapshot.dps_history.len() ==> #[trigger] m.snapshot.dps_history[i].elapsed_seconds == i
}

/// The visit that started at second `start` has a history that is empty or
/// covers its seconds through some second no later than `through`.
pub open spec fn history_ready(m: AnalyzerModel, start: i64, through: i64) -> bool {
    &&& m.visit_started_second == Some(start)
    &&& match m.history_through_second {
        None => m.snapshot.dps_history.len() == 0,
        Some(last) => last <= through && history_covers(m, start, last),
    }
}

/// Extending the history at a time no earlier than the last extension keeps
/// one point per second of the visit, through the new second, and never
/// changes a point that was already there.
pub proof fn law_history_one_point_per_second(m: AnalyzerModel, start: i64, through: i64)
    requires
        history_ready(m, start, through),
        start <= through < i64::MAX,
        through - start <= HISTORY_LIMIT_SECONDS,
    ensures
        history_covers(update_history_m(m, through), start, through),
        m.snapshot.dps_history.is_prefix_of(update_history_m(m, through).snapshot.dps_history),
{
    reveal(history_points);
    let n = update_history_m(m, through);
    let old_len = m.snapshot.dps_history.len() as int;
    let first = history_first(m, start);
    assert(first == start + old_len);
    assert forall|i: int| 0 <= i < n.snapshot.dps_history.len() implies #[trigger] n.snapshot.dps_history[i].elapsed_seconds
        == i by {
        if i >= old_len {
            assert(n.snapshot.dps_history[i] == history_point(
                m.realtime,
                history_epoch(m),
                history_step(m),
                (first + (i - old_len)) as i64,
                start,
            ));
        }
    }
}

/// A published snapshot carries the visit's history through the last
/// complete second before `now`, extending what an earlier snapshot or event
/// of the visit recorded.
pub proof fn law_snapshot_history_through_last_second(m: AnalyzerModel, start: i64, now: i64)
    requires
        history_ready(m, start, (now - 1) as i64),
        start < now,
        now - 1 - start <= HISTORY_LIMIT_SECONDS,
    ensures
        history_covers(snapshot_m(m, now), start, (now - 1) as i64),
        m.snapshot.dps_history.is_prefix_of(snapshot_m(m, now).snapshot.dps_history),
{
    let last = clamp_i64(now - 1);
    let d = danger_m(m, now);
    law_history_one_point_per_second(d, start, last);
}

/// A new visit starts with an empty history that no second covers yet.
pub proof fn law_entering_starts_an_empty_history(m: AnalyzerModel, second: i64, estimate: Option<StepEstimate>)
    ensures
        history_ready(event_m(m, EventView::EnterEcliptica(second), estimate), second, second),
        event_m(m, EventView::EnterEcliptica(second), estimate).history_through_second is None,
{
}

/// Discarding a round never loses the visit peak: the round's peak is
/// archived into the visit maximum.
pub proof fn law_round_reset_keeps_visit_peak(m: AnalyzerModel)
    ensures
        reset_combat_m(m).snapshot.max_dps >= m.snapshot.max_dps,
        reset_combat_m(m).snapshot.max_dps >= m.round_max_dps,
{
}

/// Damage outside active round metrics (for example on the lobby training
/// dummy) only feeds the visit-wide real-time stream.
pub proof fn law_lobby_damage_leaves_round_metrics(m: AnalyzerModel, second: i64, amount: u64)
    requires
        !m.snapshot.round_metrics_active,
    ensures
        ({
            let n = damage_m(m, second, amount);
            &&& n.damage == m.damage
            &&& n.round_damage == m.round_damage
            &&& n.round_damage_total == m.round_damage_total
            &&& n.round_first_damage_second == m.round_first_damage_second
            &&& n.snapshot.has_damage_data == m.snapshot.has_damage_data
            &&& n.snapshot.phase == m.snapshot.phase
            &&& n.snapshot.round_report == m.snapshot.round_report
        }),
{
}

/// Boss signals never override a known lobby phase.
pub proof fn law_lobby_ignores_boss_noise(m: AnalyzerModel, second: i64, name: Seq<char>, estimate: Option<StepEstimate>)
    requires
        m.snapshot.phase == RoundPhase::Lobby,
    ensures
        event_m(m, EventView::Boss(second, name), estimate) == m,
{
}

/// The lobby baseline that a stage needs to track personal round metrics is
/// set by a lobby marker or by the final boss's death in combat, cleared by
/// a stage, a room entry or leaving, and kept by every other event; so a
/// stage seen on joining or right after another stage never tracks them.
pub proof fn law_baseline_follows_markers(m: AnalyzerModel, event: EventView, estimate: Option<StepEstimate>)
    ensures
        event_m(m, event, estimate).round_baseline_ready == match event {
            EventView::Intermission(_) => true,
            EventView::Stage(..) | EventView::EnterEcliptica(_) | EventView::LeaveRoom(_) => false,
            EventView::BossDefeated(_, name) => if m.snapshot.phase == RoundPhase::Combat && spec_is_jim_final_phase(
                name,
            ) {
                true
            } else {
                m.round_baseline_ready
            },
            _ => m.round_baseline_ready,
        },
{
    reveal(diagnostic_effect);
}

/// Reaching the lobby leaves no boss, no lock and no active round metrics.
pub proof fn law_lobby_starts_without_boss(m: AnalyzerModel, second: i64, estimate: Option<StepEstimate>)
    ensures
        ({
            let n = event_m(m, EventView::Intermission(second), estimate);
            &&& n.snapshot.phase == RoundPhase::Lobby
            &&& !n.snapshot.round_metrics_active
            &&& n.snapshot.boss is None
            &&& n.snapshot.boss_lock is None
            &&& !n.snapshot.boss_active
        }),
{
}

/// In the lobby, combat noise (damage dealt or taken, boss, ownership or
/// boss-death signals) keeps the archived report, the combat epoch and the
/// round's metrics until the next stage marker.
pub proof fn law_lobby_noise_keeps_report(m: AnalyzerModel, event: EventView, estimate: Option<StepEstimate>)
    requires
        m.snapshot.phase == RoundPhase::Lobby,
        !m.snapshot.round_metrics_active,
        m.snapshot.boss is None,
        match event {
            EventView::Damage(..) | EventView::DamageTaken(..) | EventView::Boss(..) | EventView::Ownership(
                ..,
            ) | EventView::BossDefeated(..) => true,
            _ => false,
        },
    ensures
        ({
            let n = event_m(m, event, estimate);
            &&& n.snapshot.phase == RoundPhase::Lobby
            &&& n.snapshot.round_report == m.snapshot.round_report
            &&& n.snapshot.combat_round_epoch == m.snapshot.combat_round_epoch
            &&& !n.snapshot.round_metrics_active
            &&& n.snapshot.has_damage_data == m.snapshot.has_damage_data
            &&& n.snapshot.round_damage_taken == m.snapshot.round_damage_taken
            &&& n.snapshot.boss is None
            &&& n.snapshot.boss_lock == m.snapshot.boss_lock
            &&& n.snapshot.boss_active == m.snapshot.boss_active
            &&& n.round_damage == m.round_damage
        }),
{
}

// ---------------------------------------------------------------------------
// Reachable states
// ---------------------------------------------------------------------------

/// The second an event carries, if any.
pub open spec fn event_second(e: EventView) -> Option<i64> {
    match e {
        EventView::EnterEcliptica(s) => Some(s),
        EventView::LeaveRoom(s) => Some(s),
        EventView::Stage(s, _) => Some(s),
        EventView::Intermission(s) => Some(s),
        EventView::Boss(s, _) => Some(s),
        EventView::BossDefeated(s, _) => Some(s),
        EventView::Ownership(_, _) => None,
        EventView::Damage(s, _) => Some(s),
        EventView::DamageTaken(s, _) => Some(s),
    }
}

/// One step of the analyzer as its public operations take it: a parsed
/// line with the step estimate that follows it, or a snapshot published at
/// a second.
pub enum AnalyzerStep {
    Line(LineView, Option<StepEstimate>),
    Snapshot(i64),
}

/// The second of a step: the event's second for a line, the publishing
/// second for a snapshot.
pub open spec fn step_time(step: AnalyzerStep) -> Option<i64> {
    match step {
        AnalyzerStep::Line(line, _) => match line.event {
            Some(e) => event_second(e),
            None => None,
        },
        AnalyzerStep::Snapshot(now) => Some(now),
    }
}

/// The analyzer after one step.
pub open spec fn step_m(m: AnalyzerModel, step: AnalyzerStep) -> AnalyzerModel {
    match step {
        AnalyzerStep::Line(line, estimate) => line_m(m, line, estimate),
        AnalyzerStep::Snapshot(now) => snapshot_m(m, now),
    }
}

/// The analyzer after the steps, in order.
pub open spec fn run_m(m: AnalyzerModel, steps: Seq<AnalyzerStep>) -> AnalyzerModel
    decreases steps.len(),
{
    if steps.len() == 0 {
        m
    } else {
        step_m(run_m(m, steps.drop_last()), steps.last())
    }
}

/// The steps' seconds never go back.
pub open spec fn times_ordered(steps: Seq<AnalyzerStep>) -> bool {
    forall|i: int, j: int|
        #![trigger step_time(steps[i]), step_time(steps[j])]
        0 <= i < j < steps.len() && step_time(steps[i]) is Some && step_time(steps[j]) is Some
            ==> step_time(steps[i])->0 <= step_time(steps[j])->0
}

/// The second of the latest step that has one.
pub open spec fn latest_time(steps: Seq<AnalyzerStep>) -> Option<i64>
    decreases steps.len(),
{
    if steps.len() == 0 {
        None
    } else {
        match step_time(steps.last()) {
            Some(t) => Some(t),
            None => latest_time(steps.drop_last()),
        }
    }
}

/// While a visit runs its DPS history is empty until first extended, and
/// then holds one point per second of the visit through the last extended
/// second.
pub open spec fn history_consistent(m: AnalyzerModel) -> bool {
    match m.visit_started_second {
        None => true,
        Some(start) => match m.history_through_second {
            None => m.snapshot.dps_history.len() == 0,
            Some(last) => last < i64::MAX && history_covers(m, start, last),
        },
    }
}

/// The history is extended no later than the last complete second before
/// `t`.
pub open spec fn history_extended_before(m: AnalyzerModel, t: i64) -> bool {
    match m.history_through_second {
        Some(last) => last <= clamp_i64(t - 1),
        None => true,
    }
}

/// In the lobby no round is tracked: no metrics, damage data, damage taken
/// or boss.
pub open spec fn lobby_clear(m: AnalyzerModel) -> bool {
    m.snapshot.phase == RoundPhase::Lobby ==> {
        &&& !m.snapshot.round_metrics_active
        &&& !m.snapshot.has_damage_data
        &&& m.snapshot.round_damage_taken == 0
        &&& m.round_damage_taken_total == 0
        &&& m.snapshot.boss is None
        &&& m.snapshot.boss_lock is None
        &&& !m.snapshot.boss_active
    }
}

proof fn lemma_update_keeps_history(m: AnalyzerModel, through: i64)
    requires
        history_consistent(m),
        through < i64::MAX,
        m.history_through_second matches Some(last) ==> last <= through,
    ensures
        history_consistent(update_history_m(m, through)),
        update_history_m(m, through).visit_started_second == m.visit_started_second,
        update_history_m(m, through).history_through_second is None ==> m.history_through_second is None,
        update_history_m(m, through).history_through_second matches Some(x) ==> x <= through || update_history_m(
            m,
            through,
        ).history_through_second == m.history_through_second,
        m.snapshot.dps_history.is_prefix_of(update_history_m(m, through).snapshot.dps_history),
{
    let n = update_history_m(m, through);
    match m.visit_started_second {
        None => {
            assert(m.snapshot.dps_history.is_prefix_of(n.snapshot.dps_history));
        },
        Some(start) => {
            if through < start || clamp_i64(through - start) > HISTORY_LIMIT_SECONDS {
                assert(m.snapshot.dps_history.is_prefix_of(n.snapshot.dps_history));
            } else {
                law_history_one_point_per_second(m, start, through);
            }
        },
    }
}

/// What an event keeps of the visit's history (see the law below).
pub open spec fn event_keeps_history(m: AnalyzerModel, event: EventView, estimate: Option<StepEstimate>) -> bool {
    let n = event_m(m, event, estimate);
    &&& history_consistent(n)
    &&& match event_second(event) {
        Some(t) => history_extended_before(n, t),
        None => n.history_through_second == m.history_through_second,
    }
    &&& (m.visit_started_second is Some && n.visit_started_second == m.visit_started_second && !(
    event is EnterEcliptica)) ==> m.snapshot.dps_history.is_prefix_of(n.snapshot.dps_history)
}

#[verifier::rlimit(30)]
proof fn lemma_stage_keeps_history(m: AnalyzerModel, s: i64, p: Option<Seq<char>>, estimate: Option<StepEstimate>)
    requires
        history_consistent(m),
        history_extended_before(m, s),
    ensures
        event_keeps_history(m, EventView::Stage(s, p), estimate),
{
    reveal(diagnostic_effect);
    lemma_update_keeps_history(m, clamp_i64(s - 1));
}

proof fn lemma_finish_round_keeps_history(m: AnalyzerModel, s: i64)
    ensures
        finish_round_m(m, s).visit_started_second == m.visit_started_second,
        finish_round_m(m, s).history_through_second == m.history_through_second,
        finish_round_m(m, s).snapshot.dps_history == m.snapshot.dps_history,
{
    if !(m.round_first_damage_second is Some || m.round_damage_taken_total > 0) {
        reveal(diagnostic_effect);
    }
}

proof fn lemma_intermission_keeps_history(m: AnalyzerModel, s: i64, estimate: Option<StepEstimate>)
    requires
        history_consistent(m),
        history_extended_before(m, s),
    ensures
        event_keeps_history(m, EventView::Intermission(s), estimate),
{
    let m1 = update_history_m(m, clamp_i64(s - 1));
    lemma_update_keeps_history(m, clamp_i64(s - 1));
    lemma_finish_round_keeps_history(m1, s);
}

#[verifier::rlimit(30)]
proof fn lemma_boss_defeated_keeps_history(m: AnalyzerModel, s: i64, name: Seq<char>, estimate: Option<StepEstimate>)
    requires
        history_consistent(m),
        history_extended_before(m, s),
    ensures
        event_keeps_history(m, EventView::BossDefeated(s, name), estimate),
{
    reveal(diagnostic_effect);
    lemma_update_keeps_history(m, clamp_i64(s - 1));
    assert(m.snapshot.dps_history.is_prefix_of(m.snapshot.dps_history));
}

proof fn lemma_other_event_keeps_history(m: AnalyzerModel, event: EventView, estimate: Option<StepEstimate>)
    requires
        history_consistent(m),
        event_second(event) matches Some(t) ==> history_extended_before(m, t),
        !(event is Stage),
        !(event is Intermission),
        !(event is BossDefeated),
    ensures
        event_keeps_history(m, event, estimate),
{
    assert(m.snapshot.dps_history.is_prefix_of(m.snapshot.dps_history));
}

/// Every event keeps the visit's history consistent when it comes no
/// earlier than the history's last extension, and extends it no further
/// than the last second before it; within a visit the earlier history stays
/// a prefix.
pub proof fn law_event_keeps_history_consistent(m: AnalyzerModel, event: EventView, estimate: Option<StepEstimate>)
    requires
        history_consistent(m),
        event_second(event) matches Some(t) ==> history_extended_before(m, t),
    ensures
        event_keeps_history(m, event, estimate),
{
    match event {
        EventView::Stage(s, p) => lemma_stage_keeps_history(m, s, p, estimate),
        EventView::Intermission(s) => lemma_intermission_keeps_history(m, s, estimate),
        EventView::BossDefeated(s, name) => lemma_boss_defeated_keeps_history(m, s, name, estimate),
        _ => lemma_other_event_keeps_history(m, event, estimate),
    }
}

/// Every step of the analyzer, a line or a snapshot, keeps the visit's
/// history consistent when it comes no earlier than the history's last
/// extension; within a visit the earlier history stays a prefix.
pub proof fn law_step_keeps_history_consistent(m: AnalyzerModel, step: AnalyzerStep)
    requires
        history_consistent(m),
        step_time(step) matches Some(t) ==> history_extended_before(m, t),
    ensures
        ({
            let n = step_m(m, step);
            &&& history_consistent(n)
            &&& match step_time(step) {
                Some(t) => history_extended_before(n, t),
                None => n.history_through_second == m.history_through_second,
            }
            &&& (m.visit_started_second is Some && n.visit_started_second == m.visit_started_second
                && !(step matches AnalyzerStep::Line(line, _) && line.event matches Some(
                EventView::EnterEcliptica(_),
            ))) ==> m.snapshot.dps_history.is_prefix_of(n.snapshot.dps_history)
        }),
{
    reveal(diagnostic_effect);
    match step {
        AnalyzerStep::Line(line, estimate) => {
            let m1 = match line.diagnostic {
                Some(d) => record_diagnostic_m(m, d.0, d.1),
                None => m,
            };
            match line.event {
                Some(e) => {
                    law_event_keeps_history_consistent(m1, e, estimate);
                },
                None => {
                    assert(m.snapshot.dps_history.is_prefix_of(m1.snapshot.dps_history));
                },
            }
        },
        AnalyzerStep::Snapshot(now) => {
            lemma_update_keeps_history(danger_m(m, now), clamp_i64(now - 1));
        },
    }
}

proof fn lemma_latest_time_is_a_step_time(steps: Seq<AnalyzerStep>)
    ensures
        latest_time(steps) matches Some(t) ==> exists|i: int|
            0 <= i < steps.len() && #[trigger] step_time(steps[i]) == Some(t),
    decreases steps.len(),
{
    if steps.len() > 0 {
        lemma_latest_time_is_a_step_time(steps.drop_last());
        if step_time(steps.last()) is None {
            if let Some(t) = latest_time(steps.drop_last()) {
                let i = choose|i: int| 0 <= i < steps.drop_last().len() && #[trigger] step_time(steps.drop_last()[i]) == Some(t);
                assert(steps[i] == steps.drop_last()[i]);
            }
        } else {
            assert(step_time(steps[steps.len() - 1]) == step_time(steps.last()));
        }
    }
}

/// From a new analyzer, any steps whose seconds never go back keep the DPS
/// history of a running visit at one point per second of the visit, none
/// missing or repeated.
pub proof fn law_reachable_history_consistent(steps: Seq<AnalyzerStep>)
    requires
        times_ordered(steps),
    ensures
        history_consistent(run_m(initial_model(), steps)),
        match latest_time(steps) {
            Some(t) => history_extended_before(run_m(initial_model(), steps), t),
            None => run_m(initial_model(), steps).history_through_second is None,
        },
    decreases steps.len(),
{
    if steps.len() > 0 {
        let p = steps.drop_last();
        assert forall|i: int, j: int|
            #![trigger step_time(p[i]), step_time(p[j])]
            0 <= i < j < p.len() && step_time(p[i]) is Some && step_time(p[j]) is Some implies step_time(
                p[i],
            )->0 <= step_time(p[j])->0 by {
            assert(p[i] == steps[i] && p[j] == steps[j]);
        }
        law_reachable_history_consistent(p);
        let m = run_m(initial_model(), p);
        let step = steps.last();
        if let Some(t) = step_time(step) {
            lemma_latest_time_is_a_step_time(p);
            if let Some(u) = latest_time(p) {
                let i = choose|i: int| 0 <= i < p.len() && #[trigger] step_time(p[i]) == Some(u);
                assert(steps[i] == p[i]);
                assert(step_time(steps[steps.len() - 1]) == step_time(step));
                assert(u <= t);
            }
        }
        law_step_keeps_history_consistent(m, step);
    }
}

proof fn lemma_diagnostic_keeps_lobby_clear(m: AnalyzerModel, code: DiagnosticCode, message: Seq<char>)
    requires
        lobby_clear(m),
    ensures
        lobby_clear(record_diagnostic_m(m, code, message)),
        record_diagnostic_m(m, code, message).snapshot.phase == m.snapshot.phase,
        record_diagnostic_m(m, code, message).snapshot.round_metrics_active == m.snapshot.round_metrics_active,
        record_diagnostic_m(m, code, message).snapshot.boss is Some ==> m.snapshot.boss is Some,
{
    reveal(diagnostic_effect);
}

proof fn lemma_event_keeps_lobby_clear(m: AnalyzerModel, event: EventView, estimate: Option<StepEstimate>)
    requires
        lobby_clear(m),
    ensures
        lobby_clear(event_m(m, event, estimate)),
{
    reveal(diagnostic_effect);
}

/// Every step of the analyzer keeps the lobby free of a tracked round.
pub proof fn law_step_keeps_lobby_clear(m: AnalyzerModel, step: AnalyzerStep)
    requires
        lobby_clear(m),
    ensures
        lobby_clear(step_m(m, step)),
{
    match step {
        AnalyzerStep::Line(line, estimate) => {
            let m1 = match line.diagnostic {
                Some(d) => {
                    lemma_diagnostic_keeps_lobby_clear(m, d.0, d.1);
                    record_diagnostic_m(m, d.0, d.1)
                },
                None => m,
            };
            match line.event {
                Some(e) => lemma_event_keeps_lobby_clear(m1, e, estimate),
                None => {},
            }
        },
        AnalyzerStep::Snapshot(now) => {},
    }
}

/// From a new analyzer, every lobby state reached by any steps tracks no
/// round: no metrics, damage data, damage taken or boss.
pub proof fn law_reachable_lobby_clear(steps: Seq<AnalyzerStep>)
    ensures
        lobby_clear(run_m(initial_model(), steps)),
    decreases steps.len(),
{
    if steps.len() > 0 {
        law_reachable_lobby_clear(steps.drop_last());
        law_step_keeps_lobby_clear(run_m(initial_model(), steps.drop_last()), steps.last());
    }
}

proof fn lemma_sum_of_kept(e: Seq<(i64, u64)>, min: int, lo: int, hi: int)
    requires
        min <= lo,
    ensures
        sum_between(kept_from(e, min), lo, hi) == sum_between(e, lo, hi),
    decreases e.len(),
{
    if e.len() > 0 {
        lemma_sum_of_kept(e.drop_last(), min, lo, hi);
        if e.last().0 >= min {
            assert(kept_from(e, min).drop_last() =~= kept_from(e.drop_last(), min));
        }
    }
}

/// The published thirty-second average DPS is the round's damage of the
/// thirty complete seconds before `now` (from `now - 30` through `now - 1`),
/// divided by thirty.
pub proof fn law_average_covers_the_last_thirty_seconds(m: AnalyzerModel, now: i64)
    requires
        now >= i64::MIN + 30,
    ensures
        snapshot_m(m, now).snapshot.average_dps == (Ratio {
            numerator: sat_sum(sum_between(m.damage, now - 30, now - 1)),
            denominator: 30,
        }),
{
    let last = clamp_i64(now - 1);
    let first = clamp_i64(last - 29);
    let m1 = realtime_refresh_m(update_history_m(danger_m(m, now), last), last);
    assert(m1.damage == m.damage);
    lemma_sum_of_kept(m.damage, clamp_i64(first - 2) as int, first as int, last as int);
}

proof fn lemma_max_upto_bounds(e: Seq<(i64, u64)>, hi: int, i: int)
    requires
        0 <= i < e.len(),
        e[i].0 <= hi,
    ensures
        max_upto(e, hi) matches Some(x) && x >= e[i].1,
    decreases e.len(),
{
    if i < e.len() - 1 {
        assert(e.drop_last()[i] == e[i]);
        lemma_max_upto_bounds(e.drop_last(), hi, i);
    }
}

/// The published peak never falls, and it is at least the round damage of
/// every complete second before `now` that is still recorded.
pub proof fn law_peak_covers_every_complete_second(m: AnalyzerModel, now: i64, i: int)
    requires
        now > i64::MIN,
        0 <= i < m.damage.len(),
        m.damage[i].0 < now,
    ensures
        snapshot_m(m, now).snapshot.max_dps >= m.snapshot.max_dps,
        snapshot_m(m, now).snapshot.max_dps >= m.damage[i].1,
{
    lemma_max_upto_bounds(m.damage, now - 1, i);
}

/// The danger flag is raised exactly when the damage taken in the rapid
/// window (from `now - 10` through `now`) exceeds the danger threshold.
pub proof fn law_danger_follows_recent_damage_taken(m: AnalyzerModel, now: i64)
    requires
        now >= i64::MIN + 10,
    ensures
        snapshot_m(m, now).snapshot.rapid_damage_danger == (sat_sum(sum_between(m.taken, now - 10, now as int)) > 50),
{
    lemma_sum_of_kept(m.taken, now - 10, now - 10, now as int);
}

/// After a round whose start was observed and that had output is archived,
/// the comparison base of the next round's growth is the archived report's
/// effective DPS.
pub proof fn law_growth_base_is_the_archived_effective_dps(m: AnalyzerModel, second: i64)
    requires
        m.round_started_second is Some,
        m.round_first_damage_second is Some,
    ensures
        finish_round_m(m, second).snapshot.round_report matches Some(r) && finish_round_m(
            m,
            second,
        ).previous_round_effective_dps == Some(r.effective_dps),
{
}

/// A report compares with the base that the rounds before left: the base
/// when it had output, none otherwise or when the round had no output.
pub proof fn law_report_compares_with_the_base(m: AnalyzerModel, second: i64)
    ensures
        report_of(m, second).previous_effective_dps == match m.previous_round_effective_dps {
            Some(p) => if p.numerator > 0 && m.round_first_damage_second is Some {
                Some(p)
            } else {
                None
            },
            None => None,
        },
{
    reveal(report_of);
}

/// A diagnostic is queued for the runtime only on its code's first
/// occurrence in the visit; every occurrence is counted.
pub proof fn law_diagnostic_queued_once(m: AnalyzerModel, code: DiagnosticCode, message: Seq<char>)
    ensures
        record_diagnostic_m(m, code, message).pending.len() == m.pending.len() + if has_issue(
            m.issues,
            code,
        ) {
            0int
        } else {
            1int
        },
        record_diagnostic_m(m, code, message).degraded,
{
    reveal(diagnostic_effect);
}

/// The final boss's last phase ends the run: the report is archived at once
/// and the step estimate is hidden.
pub proof fn law_final_boss_ends_run(m: AnalyzerModel, second: i64, name: Seq<char>)
    requires
        m.snapshot.phase == RoundPhase::Combat,
        spec_is_jim_final_phase(name),
    ensures
        ({
            let n = boss_defeated_m(m, second, name);
            &&& n.snapshot.phase == RoundPhase::Lobby
            &&& !n.snapshot.has_step_estimate
            &&& n.snapshot.current_step == 0
            &&& n.snapshot.until_boss_step == 0
            &&& n.round_baseline_ready
            &&& !n.snapshot.round_metrics_active
        }),
{
}

} // verus!
