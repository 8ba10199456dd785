//! The log reader's decisions: splitting appended bytes into complete
//! lines, the data status of the source, how diagnostics are reported, and
//! which log file is the latest.
//!
//! Time is counted in milliseconds on a monotonic clock.
use vstd::prelude::*;

use crate::analysis::DataStatus;
use crate::i18n::{catalog, format_pattern, text, Language, Text};
use crate::log_protocol::DiagnosticCode;
use crate::runtime::EventLevel;
use crate::text::{append_str, chars_of, string_of};

verus! {

/// The shortest wait between searches for a log.
pub const MIN_BACKOFF_MS: u64 = 250;
/// The longest wait between searches for a log.
pub const MAX_BACKOFF_MS: u64 = 8000;
/// The wait between two reads of the log.
pub const POLL_INTERVAL_MS: u64 = 250;

/// The characters of `bytes` decoded as UTF-8, invalid sequences replaced
/// by U+FFFD.
pub uninterp spec fn utf8_lossy(bytes: Seq<u8>) -> Seq<char>;

/// `String::from_utf8_lossy`, named as a function of the bytes.
#[verifier::external_body]
fn decode_lossy(bytes: &[u8]) -> (r: String)
    ensures
        r@ == utf8_lossy(bytes@),
{
    String::from_utf8_lossy(bytes).into_owned()
}

/// Index of the last line feed of `s`.
pub open spec fn last_newline(s: Seq<u8>) -> Option<int>
    decreases s.len(),
{
    if s.len() == 0 {
        None
    } else if s.last() == 10u8 {
        Some(s.len() - 1)
    } else {
        last_newline(s.drop_last())
    }
}

/// Index of the first line feed of `s` (its length when none).
pub open spec fn first_newline(s: Seq<u8>) -> int
    decreases s.len(),
{
    if s.len() == 0 {
        0
    } else if s[0] == 10u8 {
        0
    } else {
        1 + first_newline(s.skip(1))
    }
}

/// The non-empty pieces of `s` between line feeds.
pub open spec fn pieces(s: Seq<u8>) -> Seq<Seq<u8>>
    decreases s.len(),
{
    if s.len() == 0 {
        Seq::empty()
    } else {
        proof {
            lemma_first_newline(s);
        }
        let j = first_newline(s);
        let piece = s.take(j);
        let rest = if j < s.len() {
            s.skip(j + 1)
        } else {
            Seq::empty()
        };
        if piece.len() == 0 {
            pieces(rest)
        } else {
            seq![piece] + pieces(rest)
        }
    }
}

/// `s` without trailing carriage returns.
pub open spec fn without_trailing_cr(s: Seq<char>) -> Seq<char>
    decreases s.len(),
{
    if s.len() > 0 && s.last() == '\r' {
        without_trailing_cr(s.drop_last())
    } else {
        s
    }
}

/// A line as handed to the analyzer: decoded, trailing carriage returns
/// removed.
pub open spec fn line_text(piece: Seq<u8>) -> Seq<char> {
    without_trailing_cr(utf8_lossy(piece))
}

pub open spec fn lines_view(v: Seq<String>) -> Seq<Seq<char>> {
    v.map_values(|s: String| s@)
}

pub proof fn lemma_first_newline(s: Seq<u8>)
    ensures
        0 <= first_newline(s) <= s.len(),
        forall|k: int| 0 <= k < first_newline(s) ==> s[k] != 10u8,
        first_newline(s) < s.len() ==> s[first_newline(s)] == 10u8,
    decreases s.len(),
{
    if s.len() > 0 && s[0] != 10u8 {
        lemma_first_newline(s.skip(1));
        assert forall|k: int| 0 <= k < first_newline(s) implies s[k] != 10u8 by {
            if k > 0 {
                assert(s[k] == s.skip(1)[k - 1]);
            }
        }
    }
}

fn trim_cr(s: &[char]) -> (r: Vec<char>)
    ensures
        r@ == without_trailing_cr(s@),
{
    let mut n = s.len();
    assert(s@.subrange(0, n as int) =~= s@);
    while n > 0 && s[n - 1] == '\r'
        invariant
            n <= s@.len(),
            without_trailing_cr(s@) == without_trailing_cr(s@.subrange(0, n as int)),
        decreases n,
    {
        assert(s@.subrange(0, n as int).drop_last() =~= s@.subrange(0, n - 1));
        n = n - 1;
    }
    crate::text::slice_chars(s, 0, n)
}

/// The non-empty lines of `s` decoded.
fn split_lines(s: &Vec<u8>) -> (r: Vec<String>)
    ensures
        lines_view(r@) == pieces(s@).map_values(|p: Seq<u8>| line_text(p)),
{
    let n = s.len();
    let mut out: Vec<String> = Vec::new();
    let mut start: usize = 0;
    assert(s@.skip(0) =~= s@);
    while start < n
        invariant
            start <= n,
            n == s@.len(),
            pieces(s@).map_values(|p: Seq<u8>| line_text(p)) == lines_view(out@) + pieces(
                s@.skip(start as int),
            ).map_values(|p: Seq<u8>| line_text(p)),
        decreases n - start,
    {
        let ghost rest = s@.skip(start as int);
        proof {
            lemma_first_newline(rest);
        }
        let mut end = start;
        while end < n && s[end] != 10u8
            invariant
                start <= end <= n,
                n == s@.len(),
                rest == s@.skip(start as int),
                forall|k: int| start <= k < end ==> s@[k] != 10u8,
                end - start <= first_newline(rest),
                0 <= first_newline(rest) <= rest.len(),
                first_newline(rest) < rest.len() ==> rest[first_newline(rest)] == 10u8,
                rest.len() == n - start,
            decreases n - end,
        {
            assert(rest[end - start] == s@[end as int]);
            proof {
                let f = first_newline(rest);
                if f == end - start {
                    assert(f < rest.len());
                }
            }
            end = end + 1;
        }
        proof {
            if end - start < first_newline(rest) {
                assert(rest[end - start] == s@[end as int]);
            }
        }
        assert(end - start == first_newline(rest));
        let ghost piece = rest.take(end - start);
        let ghost tail = if end < n {
            rest.skip(end - start + 1)
        } else {
            Seq::<u8>::empty()
        };
        if end > start {
            let bytes = vec_slice(s, start, end);
            assert(bytes@ =~= piece);
            let decoded = decode_lossy(bytes.as_slice());
            let chars = chars_of(decoded.as_str());
            let line = trim_cr(&chars);
            let ghost before = out@;
            out.push(string_of(&line));
            assert(lines_view(out@) =~= lines_view(before) + seq![line_text(piece)]);
        }
        proof {
            assert(pieces(rest) == if piece.len() == 0 {
                pieces(tail)
            } else {
                seq![piece] + pieces(tail)
            });
        }
        if end < n {
            start = end + 1;
            assert(s@.skip(start as int) =~= tail);
        } else {
            start = n;
            assert(s@.skip(start as int) =~= tail);
        }
        assert(pieces(s@).map_values(|p: Seq<u8>| line_text(p)) =~= lines_view(out@) + pieces(
            s@.skip(start as int),
        ).map_values(|p: Seq<u8>| line_text(p)));
    }
    assert(pieces(s@.skip(n as int)) =~= Seq::<Seq<u8>>::empty());
    assert(lines_view(out@) =~= pieces(s@).map_values(|p: Seq<u8>| line_text(p)));
    out
}

fn vec_slice(s: &Vec<u8>, from: usize, to: usize) -> (r: Vec<u8>)
    requires
        from <= to <= s@.len(),
    ensures
        r@ == s@.subrange(from as int, to as int),
{
    let mut r: Vec<u8> = Vec::new();
    let mut i = from;
    while i < to
        invariant
            from <= i <= to,
            to <= s@.len(),
            r@ == s@.subrange(from as int, i as int),
        decreases to - i,
    {
        r.push(s[i]);
        i = i + 1;
        assert(r@ =~= s@.subrange(from as int, i as int));
    }
    r
}

/// Appends `bytes` to the partial data and takes out every complete line:
/// everything up to the last line feed, split at line feeds, empty lines
/// dropped, decoded as UTF-8 (lossy) and stripped of trailing carriage
/// returns. A partial line (or a partial UTF-8 sequence) waits for more
/// data.
pub fn complete_lines(pending: &mut Vec<u8>, bytes: Vec<u8>) -> (r: Vec<String>)
    ensures
        final(pending)@ == fed_pending(old(pending)@, bytes@),
        lines_view(r@) == fed_pieces(old(pending)@, bytes@).map_values(|p: Seq<u8>| line_text(p)),
{
    let mut all: Vec<u8> = Vec::new();
    std::mem::swap(&mut all, pending);
    let ghost before = all@;
    let mut incoming = bytes;
    all.append(&mut incoming);
    assert(all@ =~= before + bytes@);
    let n = all.len();
    let mut k = n;
    assert(all@.take(n as int) =~= all@);
    while k > 0 && all[k - 1] != 10u8
        invariant
            k <= n,
            n == all@.len(),
            last_newline(all@) == last_newline(all@.take(k as int)),
        decreases k,
    {
        assert(all@.take(k as int).drop_last() =~= all@.take(k - 1));
        k = k - 1;
    }
    if k == 0 {
        assert(all@.take(0) =~= Seq::<u8>::empty());
        *pending = all;
        return Vec::new();
    }
    assert(all@.take(k as int).drop_last() =~= all@.take(k - 1));
    let complete = vec_slice(&all, 0, k);
    let rest = vec_slice(&all, k, n);
    assert(complete@ =~= all@.take(k as int));
    assert(rest@ =~= all@.skip(k as int));
    *pending = rest;
    split_lines(&complete)
}

/// The status of the source: live while data grew within the wait time,
/// stale after it, recovering before any data arrived.
pub open spec fn spec_data_status(last_growth: Option<u64>, now: u64, stale_after: u64) -> DataStatus {
    match last_growth {
        Some(last) => if (if now >= last {
            now - last
        } else {
            0int
        }) <= stale_after {
            DataStatus::Live
        } else {
            DataStatus::Stale
        },
        None => DataStatus::Recovering,
    }
}

/// The status of the source at `now`.
pub fn data_status(last_growth: Option<u64>, now: u64, stale_after: u64) -> (r: DataStatus)
    ensures
        r == spec_data_status(last_growth, now, stale_after),
{
    match last_growth {
        Some(last) => {
            let elapsed = if now >= last {
                now - last
            } else {
                0
            };
            if elapsed <= stale_after {
                DataStatus::Live
            } else {
                DataStatus::Stale
            }
        },
        None => DataStatus::Recovering,
    }
}

/// The wait after a failed search: doubled, at most eight seconds.
pub fn next_backoff(backoff: u64) -> (r: u64)
    ensures
        r == (if backoff as int * 2 >= MAX_BACKOFF_MS {
            MAX_BACKOFF_MS as int
        } else {
            backoff as int * 2
        }),
{
    if backoff >= MAX_BACKOFF_MS / 2 {
        MAX_BACKOFF_MS
    } else {
        backoff * 2
    }
}

/// The wait after a failed search, as a spec.
pub open spec fn backoff_after(backoff: u64) -> u64 {
    if backoff as int * 2 >= MAX_BACKOFF_MS {
        MAX_BACKOFF_MS
    } else {
        (backoff * 2) as u64
    }
}

/// What the log reader keeps between polls of the current file.
#[derive(Debug, Clone, Copy, PartialEq, Eq, Structural)]
pub struct ReaderState {
    /// Bytes of the current file already read.
    pub offset: u64,
    /// When the file last brought new bytes (milliseconds).
    pub last_growth: Option<u64>,
    /// Wait before the next search for a log, in milliseconds.
    pub backoff: u64,
}

/// What happened to the log reader since its last step.
#[derive(Debug, Clone, Copy, PartialEq, Eq, Structural)]
pub enum ReaderEvent {
    /// Another log file (or none) was chosen.
    Switched,
    /// The file at the current path is now another file.
    Replaced,
    /// The file shrank below the offset; `read` bytes were read from its
    /// start at `now`.
    Truncated { read: u64, now: u64 },
    /// `read` bytes were read after the offset at `now`.
    Appended { read: u64, now: u64 },
    /// Reading the file failed.
    ReadFailed,
    /// There is no file to read.
    NoFile,
}

/// What the reader does about an event.
#[derive(Debug, Clone, Copy, PartialEq, Eq, Structural)]
pub struct ReaderAction {
    /// Start the analysis (and its step estimate) over.
    pub reset_analysis: bool,
    /// Drop the bytes of an unfinished line.
    pub clear_pending: bool,
    /// Feed the bytes just read to the analysis.
    pub consume: bool,
    /// Forget the recorded identity of the file.
    pub forget_identity: bool,
    /// Give up the current file.
    pub drop_file: bool,
}

pub open spec fn action(reset_analysis: bool, clear_pending: bool, consume: bool, forget_identity: bool, drop_file: bool) -> ReaderAction {
    ReaderAction { reset_analysis, clear_pending, consume, forget_identity, drop_file }
}

/// The reader's decisions: a new or replaced file, a truncation or a read
/// error starts the analysis over from the file's start (a truncation then
/// reads what the file holds); appended bytes move the offset, mark growth
/// and end the search wait; no file doubles the wait.
pub open spec fn spec_reader_step(s: ReaderState, e: ReaderEvent) -> (ReaderState, ReaderAction) {
    match e {
        ReaderEvent::Switched => (ReaderState { offset: 0, ..s }, action(true, true, false, true, false)),
        ReaderEvent::Replaced => (
            ReaderState { offset: 0, last_growth: None, ..s },
            action(true, true, false, false, false),
        ),
        ReaderEvent::Truncated { read, now } => (
            ReaderState { offset: read, last_growth: Some(now), ..s },
            action(true, true, true, false, false),
        ),
        ReaderEvent::Appended { read, now } => (
            ReaderState {
                offset: if s.offset as int + read > u64::MAX {
                    u64::MAX
                } else {
                    (s.offset + read) as u64
                },
                last_growth: if read > 0 {
                    Some(now)
                } else {
                    s.last_growth
                },
                backoff: MIN_BACKOFF_MS,
            },
            action(false, false, read > 0, false, false),
        ),
        ReaderEvent::ReadFailed => (
            ReaderState { offset: 0, last_growth: None, ..s },
            action(true, true, false, true, true),
        ),
        ReaderEvent::NoFile => (ReaderState { backoff: backoff_after(s.backoff), ..s }, action(false, false, false, false, false)),
    }
}

/// One decision of the log reader: the next state and what to do.
pub fn reader_step(state: ReaderState, event: ReaderEvent) -> (r: (ReaderState, ReaderAction))
    ensures
        r == spec_reader_step(state, event),
{
    match event {
        ReaderEvent::Switched => (
            ReaderState { offset: 0, ..state },
            ReaderAction { reset_analysis: true, clear_pending: true, consume: false, forget_identity: true, drop_file: false },
        ),
        ReaderEvent::Replaced => (
            ReaderState { offset: 0, last_growth: None, ..state },
            ReaderAction { reset_analysis: true, clear_pending: true, consume: false, forget_identity: false, drop_file: false },
        ),
        ReaderEvent::Truncated { read, now } => (
            ReaderState { offset: read, last_growth: Some(now), ..state },
            ReaderAction { reset_analysis: true, clear_pending: true, consume: true, forget_identity: false, drop_file: false },
        ),
        ReaderEvent::Appended { read, now } => {
            let offset = if state.offset > u64::MAX - read {
                u64::MAX
            } else {
                state.offset + read
            };
            let last_growth = if read > 0 {
                Some(now)
            } else {
                state.last_growth
            };
            (
                ReaderState { offset, last_growth, backoff: MIN_BACKOFF_MS },
                ReaderAction { reset_analysis: false, clear_pending: false, consume: read > 0, forget_identity: false, drop_file: false },
            )
        },
        ReaderEvent::ReadFailed => (
            ReaderState { offset: 0, last_growth: None, ..state },
            ReaderAction { reset_analysis: true, clear_pending: true, consume: false, forget_identity: true, drop_file: true },
        ),
        ReaderEvent::NoFile => (
            ReaderState { backoff: next_backoff(state.backoff), ..state },
            ReaderAction { reset_analysis: false, clear_pending: false, consume: false, forget_identity: false, drop_file: false },
        ),
    }
}

/// The event announcing a status change: its level and catalog entry.
pub open spec fn spec_status_event(next: DataStatus) -> (EventLevel, Text) {
    match next {
        DataStatus::Live => (EventLevel::Info, Text::StatusLive),
        DataStatus::Stale => (EventLevel::Info, Text::StatusStale),
        DataStatus::Searching => (EventLevel::Warning, Text::StatusSearching),
        DataStatus::Recovering => (EventLevel::Info, Text::StatusRecovering),
        DataStatus::Error => (EventLevel::Error, Text::StatusError),
    }
}

/// Records the new status; a change is announced, a repeat is not.
pub fn set_status(last: &mut DataStatus, next: DataStatus) -> (r: Option<(EventLevel, Text)>)
    ensures
        *final(last) == next,
        r == (if *old(last) == next {
            None
        } else {
            Some(spec_status_event(next))
        }),
{
    if *last == next {
        return None;
    }
    *last = next;
    Some(
        match next {
            DataStatus::Live => (EventLevel::Info, Text::StatusLive),
            DataStatus::Stale => (EventLevel::Info, Text::StatusStale),
            DataStatus::Searching => (EventLevel::Warning, Text::StatusSearching),
            DataStatus::Recovering => (EventLevel::Info, Text::StatusRecovering),
            DataStatus::Error => (EventLevel::Error, Text::StatusError),
        },
    )
}

/// The explanation of a diagnostic for the user.
pub open spec fn diagnostic_detail_text(code: DiagnosticCode, language: Language) -> Seq<char> {
    match code {
        DiagnosticCode::StageDetails => catalog(Text::DiagnosticStageDetails).spec_get(language)@,
        DiagnosticCode::Boss => catalog(Text::DiagnosticBoss).spec_get(language)@,
        DiagnosticCode::BossDefeated => catalog(Text::DiagnosticBossDefeated).spec_get(language)@,
        DiagnosticCode::Ownership => catalog(Text::DiagnosticOwnership).spec_get(language)@,
        DiagnosticCode::IntermissionMissing => catalog(Text::DiagnosticIntermissionMissing).spec_get(language)@,
        DiagnosticCode::CombatMetricsMissing => catalog(Text::DiagnosticCombatMetricsMissing).spec_get(language)@,
        DiagnosticCode::Timestamp => crate::text::replaced(
            catalog(Text::DiagnosticTimestamp).spec_get(language)@,
            "{code}"@,
            code.spec_label(),
        ),
        _ => crate::text::replaced(
            catalog(Text::DiagnosticValue).spec_get(language)@,
            "{code}"@,
            code.spec_label(),
        ),
    }
}

fn filled_code(key: Text, code: DiagnosticCode, language: Language) -> (r: String)
    ensures
        r@ == crate::text::replaced(catalog(key).spec_get(language)@, "{code}"@, code.spec_label()),
{
    let pattern = chars_of(text(key).get(language));
    let k = chars_of("{code}");
    proof {
        reveal_strlit("{code}");
    }
    let v = chars_of(code.label());
    let r = crate::text::replace_all(&pattern, &k, &v);
    string_of(&r)
}

/// The explanation of a diagnostic for the user.
pub fn diagnostic_detail(code: DiagnosticCode, language: Language) -> (r: String)
    ensures
        r@ == diagnostic_detail_text(code, language),
{
    match code {
        DiagnosticCode::StageDetails => crate::text::owned(text(Text::DiagnosticStageDetails).get(language)),
        DiagnosticCode::Boss => crate::text::owned(text(Text::DiagnosticBoss).get(language)),
        DiagnosticCode::BossDefeated => crate::text::owned(text(Text::DiagnosticBossDefeated).get(language)),
        DiagnosticCode::Ownership => crate::text::owned(text(Text::DiagnosticOwnership).get(language)),
        DiagnosticCode::IntermissionMissing => crate::text::owned(text(Text::DiagnosticIntermissionMissing).get(language)),
        DiagnosticCode::CombatMetricsMissing => crate::text::owned(text(Text::DiagnosticCombatMetricsMissing).get(language)),
        DiagnosticCode::Timestamp => filled_code(Text::DiagnosticTimestamp, code, language),
        _ => filled_code(Text::DiagnosticValue, code, language),
    }
}

/// The event text of a diagnostic: `<degraded> [<code>]: <detail>. <suffix>`.
pub open spec fn diagnostic_message_text(code: DiagnosticCode, language: Language) -> Seq<char> {
    catalog(Text::LogProtocolDegraded).spec_get(language)@ + " ["@ + code.spec_label() + "]: "@
        + diagnostic_detail_text(code, language) + ". "@ + catalog(Text::LogProtocolDegradedSuffix).spec_get(language)@
}

/// The event text of a diagnostic.
pub fn diagnostic_message(code: DiagnosticCode, language: Language) -> (r: String)
    ensures
        r@ == diagnostic_message_text(code, language),
{
    let mut out = chars_of(text(Text::LogProtocolDegraded).get(language));
    append_str(&mut out, " [");
    append_str(&mut out, code.label());
    append_str(&mut out, "]: ");
    let detail = diagnostic_detail(code, language);
    append_str(&mut out, detail.as_str());
    append_str(&mut out, ". ");
    append_str(&mut out, text(Text::LogProtocolDegradedSuffix).get(language));
    string_of(&out)
}

/// Whether `name` is a log file name: `output_log_*.txt`.
pub open spec fn is_log_name(name: Seq<char>) -> bool {
    "output_log_"@.is_prefix_of(name) && ".txt"@.is_suffix_of(name)
}

/// Code-point order of two names (`a` before `b`).
pub open spec fn name_less(a: Seq<char>, b: Seq<char>) -> bool
    decreases a.len(),
{
    if a.len() == 0 {
        b.len() > 0
    } else if b.len() == 0 {
        false
    } else if a[0] != b[0] {
        (a[0] as int) < (b[0] as int)
    } else {
        name_less(a.skip(1), b.skip(1))
    }
}

fn less_name(a: &[char], b: &[char]) -> (r: bool)
    ensures
        r == name_less(a@, b@),
{
    let mut i: usize = 0;
    assert(a@.skip(0) =~= a@);
    assert(b@.skip(0) =~= b@);
    while i < a.len() && i < b.len() && a[i] == b[i]
        invariant
            i <= a@.len(),
            i <= b@.len(),
            name_less(a@, b@) == name_less(a@.skip(i as int), b@.skip(i as int)),
        decreases a@.len() - i,
    {
        assert(a@.skip(i as int).skip(1) =~= a@.skip(i + 1));
        assert(b@.skip(i as int).skip(1) =~= b@.skip(i + 1));
        i = i + 1;
    }
    if i == a.len() {
        i < b.len()
    } else if i == b.len() {
        false
    } else {
        assert(a@.skip(i as int)[0] == a@[i as int]);
        assert(b@.skip(i as int)[0] == b@[i as int]);
        a[i] < b[i]
    }
}

proof fn lemma_name_order(a: Seq<char>, b: Seq<char>)
    ensures
        name_less(a, b) ==> !name_less(b, a),
        !name_less(a, b) && !name_less(b, a) ==> a == b,
    decreases a.len(),
{
    if a.len() > 0 && b.len() > 0 && a[0] == b[0] {
        lemma_name_order(a.skip(1), b.skip(1));
        if !name_less(a, b) && !name_less(b, a) {
            assert(a =~= seq![a[0]] + a.skip(1));
            assert(b =~= seq![b[0]] + b.skip(1));
        }
    } else if a.len() == 0 && b.len() == 0 {
        assert(a =~= b);
    }
}

proof fn lemma_name_transitive(a: Seq<char>, b: Seq<char>, c: Seq<char>)
    requires
        name_less(a, b),
        name_less(b, c),
    ensures
        name_less(a, c),
    decreases a.len(),
{
    if a.len() > 0 && b.len() > 0 && c.len() > 0 && a[0] == b[0] && b[0] == c[0] {
        lemma_name_transitive(a.skip(1), b.skip(1), c.skip(1));
    }
}

fn log_name(name: &[char]) -> (r: bool)
    ensures
        r == is_log_name(name@),
{
    let prefix = chars_of("output_log_");
    let suffix = chars_of(".txt");
    proof {
        reveal_strlit("output_log_");
        reveal_strlit(".txt");
    }
    let n = name.len();
    if n < prefix.len() || n < suffix.len() {
        return false;
    }
    let p = crate::text::matches_at(name, 0, &prefix);
    let s = crate::text::matches_at(name, n - suffix.len(), &suffix);
    proof {
        assert(name@.subrange(0, prefix@.len() as int) == prefix@ <==> "output_log_"@.is_prefix_of(name@));
        assert(name@.subrange(n - suffix@.len(), n as int) == suffix@ <==> ".txt"@.is_suffix_of(name@));
    }
    p && s
}

/// `a` sorts at or after `b`.
pub open spec fn name_at_least(a: Seq<char>, b: Seq<char>) -> bool {
    !name_less(a, b)
}

/// The latest log among file names: the greatest (in code-point order) of
/// the names of the form `output_log_*.txt`.
pub fn latest_log_index(names: &Vec<String>) -> (r: Option<usize>)
    ensures
        r matches Some(i) ==> i < names@.len() && is_log_name(names@[i as int]@) && forall|j: int|
            0 <= j < names@.len() && is_log_name(#[trigger] names@[j]@) ==> name_at_least(
                names@[i as int]@,
                names@[j]@,
            ),
        r is None ==> forall|j: int| 0 <= j < names@.len() ==> !is_log_name(#[trigger] names@[j]@),
{
    let mut best: Option<usize> = None;
    let mut i: usize = 0;
    while i < names.len()
        invariant
            i <= names@.len(),
            best matches Some(b) ==> b < i && is_log_name(names@[b as int]@) && forall|j: int|
                0 <= j < i && is_log_name(#[trigger] names@[j]@) ==> name_at_least(names@[b as int]@, names@[j]@),
            best is None ==> forall|j: int| 0 <= j < i ==> !is_log_name(#[trigger] names@[j]@),
        decreases names@.len() - i,
    {
        let name = chars_of(names[i].as_str());
        if log_name(&name) {
            match best {
                None => {
                    best = Some(i);
                    proof {
                        assert(name_at_least(names@[i as int]@, names@[i as int]@)) by {
                            lemma_name_order(names@[i as int]@, names@[i as int]@);
                        }
                    }
                },
                Some(b) => {
                    let current = chars_of(names[b].as_str());
                    if !less_name(&name, &current) {
                        best = Some(i);
                        proof {
                            assert forall|j: int| 0 <= j <= i && is_log_name(#[trigger] names@[j]@) implies name_at_least(names@[i as int]@, names@[j]@) by {
                                if j < i {
                                    if name_less(names@[i as int]@, names@[j]@) {
                                        lemma_name_order(names@[i as int]@, names@[b as int]@);
                                        if name_less(names@[b as int]@, names@[i as int]@) {
                                            lemma_name_transitive(names@[b as int]@, names@[i as int]@, names@[j]@);
                                        } else {
                                            assert(names@[i as int]@ == names@[b as int]@);
                                        }
                                    }
                                } else {
                                    lemma_name_order(names@[i as int]@, names@[i as int]@);
                                }
                            }
                        }
                    } else {
                        proof {
                            lemma_name_order(names@[i as int]@, names@[b as int]@);
                        }
                    }
                },
            }
        }
        i = i + 1;
    }
    best
}


// ---------------------------------------------------------------------------
// Laws of the line splitter
// ---------------------------------------------------------------------------

/// The partial data kept after feeding `bytes` to `pending`.
pub open spec fn fed_pending(pending: Seq<u8>, bytes: Seq<u8>) -> Seq<u8> {
    let all = pending + bytes;
    match last_newline(all) {
        None => all,
        Some(k) => all.skip(k + 1),
    }
}

/// The raw lines taken out when feeding `bytes` to `pending`.
pub open spec fn fed_pieces(pending: Seq<u8>, bytes: Seq<u8>) -> Seq<Seq<u8>> {
    let all = pending + bytes;
    match last_newline(all) {
        None => Seq::empty(),
        Some(k) => pieces(all.take(k + 1)),
    }
}

proof fn lemma_last_newline(s: Seq<u8>)
    ensures
        match last_newline(s) {
            Some(k) => 0 <= k < s.len() && s[k] == 10u8 && forall|i: int| k < i < s.len() ==> s[i] != 10u8,
            None => forall|i: int| 0 <= i < s.len() ==> s[i] != 10u8,
        },
    decreases s.len(),
{
    if s.len() > 0 && s.last() != 10u8 {
        lemma_last_newline(s.drop_last());
        match last_newline(s.drop_last()) {
            Some(k) => {
                assert forall|i: int| k < i < s.len() implies s[i] != 10u8 by {
                    if i < s.len() - 1 {
                        assert(s[i] == s.drop_last()[i]);
                    }
                }
            },
            None => {
                assert forall|i: int| 0 <= i < s.len() implies s[i] != 10u8 by {
                    if i < s.len() - 1 {
                        assert(s[i] == s.drop_last()[i]);
                    }
                }
            },
        }
    }
}

/// `last_newline` is determined by where the line feeds are.
proof fn lemma_last_newline_unique(s: Seq<u8>, k: int)
    requires
        0 <= k < s.len(),
        s[k] == 10u8,
        forall|i: int| k < i < s.len() ==> s[i] != 10u8,
    ensures
        last_newline(s) == Some(k),
    decreases s.len(),
{
    if s.last() != 10u8 {
        let d = s.drop_last();
        assert(d[k] == s[k]);
        assert forall|i: int| k < i < d.len() implies d[i] != 10u8 by {
            assert(d[i] == s[i]);
        }
        lemma_last_newline_unique(d, k);
    }
}

proof fn lemma_no_newline(s: Seq<u8>)
    requires
        forall|i: int| 0 <= i < s.len() ==> s[i] != 10u8,
    ensures
        last_newline(s) is None,
    decreases s.len(),
{
    if s.len() > 0 {
        let d = s.drop_last();
        assert forall|i: int| 0 <= i < d.len() implies d[i] != 10u8 by {
            assert(d[i] == s[i]);
        }
        lemma_no_newline(d);
    }
}

/// The first line feed of `x + y` is that of `x` when `x` holds one.
proof fn lemma_first_newline_prefix(x: Seq<u8>, y: Seq<u8>)
    requires
        first_newline(x) < x.len(),
    ensures
        first_newline(x + y) == first_newline(x),
    decreases x.len(),
{
    lemma_first_newline(x);
    if x[0] != 10u8 {
        assert((x + y).skip(1) =~= x.skip(1) + y);
        lemma_first_newline_prefix(x.skip(1), y);
    }
}

/// Splitting at a line feed that ends `x` splits the pieces too.
proof fn lemma_pieces_append(x: Seq<u8>, y: Seq<u8>)
    requires
        x.len() > 0,
        x.last() == 10u8,
    ensures
        pieces(x + y) == pieces(x) + pieces(y),
    decreases x.len(),
{
    lemma_first_newline(x);
    lemma_first_newline(x + y);
    assert(first_newline(x) < x.len());
    lemma_first_newline_prefix(x, y);
    let j = first_newline(x);
    assert((x + y).take(j) =~= x.take(j));
    if j + 1 == x.len() {
        assert((x + y).skip(j + 1) =~= y);
        assert(x.skip(j + 1) =~= Seq::<u8>::empty());
        assert(pieces(Seq::<u8>::empty()) =~= Seq::<Seq<u8>>::empty());
        if x.take(j).len() == 0 {
            assert(pieces(x) =~= Seq::<Seq<u8>>::empty());
            assert(pieces(x + y) == pieces(y));
            assert(pieces(x) + pieces(y) =~= pieces(y));
        } else {
            assert(pieces(x) =~= seq![x.take(j)]);
        }
    } else {
        let r = x.skip(j + 1);
        assert((x + y).skip(j + 1) =~= r + y);
        assert(r.last() == x.last());
        lemma_pieces_append(r, y);
        if x.take(j).len() == 0 {
        } else {
            assert(seq![x.take(j)] + pieces(r + y) =~= seq![x.take(j)] + pieces(r) + pieces(y));
        }
    }
}

/// Feeding bytes in two chunks keeps the same partial data and takes out the
/// same lines, in the same order, as feeding them at once: a line (or a UTF-8
/// sequence) cut between two reads is completed, never split.
pub proof fn law_chunked_reads_split_like_one_read(pending: Seq<u8>, first: Seq<u8>, second: Seq<u8>)
    ensures
        fed_pending(fed_pending(pending, first), second) == fed_pending(pending, first + second),
        fed_pieces(pending, first) + fed_pieces(fed_pending(pending, first), second) == fed_pieces(
            pending,
            first + second,
        ),
{
    let a = pending + first;
    let whole = pending + (first + second);
    assert(whole =~= a + second);
    lemma_last_newline(a);
    match last_newline(a) {
        None => {
            assert(fed_pending(pending, first) == a);
            assert(fed_pieces(pending, first) =~= Seq::<Seq<u8>>::empty());
            assert(fed_pending(pending, first) + second =~= whole);
            assert(fed_pieces(pending, first) + fed_pieces(fed_pending(pending, first), second) =~= fed_pieces(
                fed_pending(pending, first),
                second,
            ));
        },
        Some(k) => {
            let p1 = a.skip(k + 1);
            let all2 = p1 + second;
            assert(fed_pending(pending, first) == p1);
            lemma_last_newline(all2);
            match last_newline(all2) {
                None => {
                    assert forall|i: int| k < i < whole.len() implies whole[i] != 10u8 by {
                        if i < a.len() {
                            assert(whole[i] == a[i]);
                        } else {
                            assert(whole[i] == all2[i - (k + 1)]);
                        }
                    }
                    assert(whole[k] == a[k]);
                    lemma_last_newline_unique(whole, k);
                    assert(whole.skip(k + 1) =~= all2);
                    assert(whole.take(k + 1) =~= a.take(k + 1));
                    assert(fed_pieces(p1, second) =~= Seq::<Seq<u8>>::empty());
                    assert(fed_pieces(pending, first) + fed_pieces(p1, second) =~= fed_pieces(pending, first));
                },
                Some(m) => {
                    let n = k + 1 + m;
                    assert(whole[n] == all2[m]);
                    assert forall|i: int| n < i < whole.len() implies whole[i] != 10u8 by {
                        assert(whole[i] == all2[i - (k + 1)]);
                    }
                    lemma_last_newline_unique(whole, n);
                    assert(whole.skip(n + 1) =~= all2.skip(m + 1));
                    assert(whole.take(n + 1) =~= a.take(k + 1) + all2.take(m + 1));
                    assert(a.take(k + 1).last() == a[k]);
                    lemma_pieces_append(a.take(k + 1), all2.take(m + 1));
                },
            }
        },
    }
}

} // verus!
