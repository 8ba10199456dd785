//! The external log protocol consumed by the analyzer.
//!
//! Game updates are allowed to break individual signals: parsing a line never
//! panics and returns a diagnostic for recognizable-but-malformed input. The
//! grammar of each signal is stated here as leftmost-first regular-expression
//! matching over the characters of the line.
use vstd::prelude::*;

use crate::text::{
    all_white, chars_of, contains_seq, find_from, has_at, is_decimal_digit, is_white_space, lemma_ws_run_end,
    matches_at, owned, parse_u64, parsed_u64, skip_white, slice_chars, string_of, trim, append_str, contains_str, spec_is_decimal_digit, spec_is_white_space,
    trimmed, ws_run_end,
};

verus! {

/// Which signal of the log protocol failed to parse.
#[derive(Debug, Clone, Copy, PartialEq, Eq, Structural)]
pub enum DiagnosticCode {
    Boss,
    BossDefeated,
    CombatMetricsMissing,
    Damage,
    DamageTaken,
    IntermissionMissing,
    Ownership,
    StageDetails,
    Timestamp,
}

impl DiagnosticCode {
    /// Position of the code's label in the alphabetical order of all labels.
    pub open spec fn rank(self) -> int {
        match self {
            DiagnosticCode::Boss => 0,
            DiagnosticCode::BossDefeated => 1,
            DiagnosticCode::CombatMetricsMissing => 2,
            DiagnosticCode::Damage => 3,
            DiagnosticCode::DamageTaken => 4,
            DiagnosticCode::IntermissionMissing => 5,
            DiagnosticCode::Ownership => 6,
            DiagnosticCode::StageDetails => 7,
            DiagnosticCode::Timestamp => 8,
        }
    }

    pub open spec fn spec_label(self) -> Seq<char> {
        match self {
            DiagnosticCode::Boss => "boss"@,
            DiagnosticCode::BossDefeated => "boss_defeated"@,
            DiagnosticCode::CombatMetricsMissing => "combat_metrics_missing"@,
            DiagnosticCode::Damage => "damage"@,
            DiagnosticCode::DamageTaken => "damage_taken"@,
            DiagnosticCode::IntermissionMissing => "intermission_missing"@,
            DiagnosticCode::Ownership => "ownership"@,
            DiagnosticCode::StageDetails => "stage_details"@,
            DiagnosticCode::Timestamp => "timestamp"@,
        }
    }

    /// The stable machine-readable name of the code.
    pub fn label(self) -> (r: &'static str)
        ensures
            r@ == self.spec_label(),
    {
        match self {
            DiagnosticCode::Boss => "boss",
            DiagnosticCode::BossDefeated => "boss_defeated",
            DiagnosticCode::CombatMetricsMissing => "combat_metrics_missing",
            DiagnosticCode::Damage => "damage",
            DiagnosticCode::DamageTaken => "damage_taken",
            DiagnosticCode::IntermissionMissing => "intermission_missing",
            DiagnosticCode::Ownership => "ownership",
            DiagnosticCode::StageDetails => "stage_details",
            DiagnosticCode::Timestamp => "timestamp",
        }
    }

    /// Alphabetical position of the label (the order of the aggregated issues).
    pub fn order(self) -> (r: u8)
        ensures
            r as int == self.rank(),
    {
        match self {
            DiagnosticCode::Boss => 0,
            DiagnosticCode::BossDefeated => 1,
            DiagnosticCode::CombatMetricsMissing => 2,
            DiagnosticCode::Damage => 3,
            DiagnosticCode::DamageTaken => 4,
            DiagnosticCode::IntermissionMissing => 5,
            DiagnosticCode::Ownership => 6,
            DiagnosticCode::StageDetails => 7,
            DiagnosticCode::Timestamp => 8,
        }
    }
}

/// A recognizable but malformed log signal.
#[derive(Debug, Clone, PartialEq, Eq)]
pub struct ProtocolDiagnostic {
    pub code: DiagnosticCode,
    pub message: String,
}

/// One recognized event of the log protocol. The stage phase is kept as the
/// decimal text that the log printed.
#[derive(Debug, Clone, PartialEq, Eq)]
pub enum ParsedEvent {
    EnterEcliptica { second: i64 },
    LeaveRoom { second: i64 },
    Stage { second: i64, phase: Option<String> },
    Intermission { second: i64 },
    Boss { second: i64, name: String },
    BossDefeated { second: i64, name: String },
    Ownership { object: String, player: String },
    Damage { second: i64, amount: u64 },
    DamageTaken { second: i64, amount: u64 },
}

/// The mathematical content of a [`ParsedEvent`].
pub enum EventView {
    EnterEcliptica(i64),
    LeaveRoom(i64),
    Stage(i64, Option<Seq<char>>),
    Intermission(i64),
    Boss(i64, Seq<char>),
    BossDefeated(i64, Seq<char>),
    Ownership(Seq<char>, Seq<char>),
    Damage(i64, u64),
    DamageTaken(i64, u64),
}

pub open spec fn opt_string_view(o: Option<String>) -> Option<Seq<char>> {
    match o {
        Some(s) => Some(s@),
        None => None,
    }
}

impl ParsedEvent {
    pub open spec fn view(&self) -> EventView {
        match self {
            ParsedEvent::EnterEcliptica { second } => EventView::EnterEcliptica(*second),
            ParsedEvent::LeaveRoom { second } => EventView::LeaveRoom(*second),
            ParsedEvent::Stage { second, phase } => EventView::Stage(
                *second,
                opt_string_view(*phase),
            ),
            ParsedEvent::Intermission { second } => EventView::Intermission(*second),
            ParsedEvent::Boss { second, name } => EventView::Boss(*second, name@),
            ParsedEvent::BossDefeated { second, name } => EventView::BossDefeated(*second, name@),
            ParsedEvent::Ownership { object, player } => EventView::Ownership(object@, player@),
            ParsedEvent::Damage { second, amount } => EventView::Damage(*second, *amount),
            ParsedEvent::DamageTaken { second, amount } => EventView::DamageTaken(*second, *amount),
        }
    }
}

/// The event and diagnostic parsed from one log line.
#[derive(Debug, Clone, PartialEq, Eq)]
pub struct ParsedLine {
    pub event: Option<ParsedEvent>,
    pub diagnostic: Option<ProtocolDiagnostic>,
}

/// The content of a parsed line: its event and its diagnostic (code, message).
pub struct LineView {
    pub event: Option<EventView>,
    pub diagnostic: Option<(DiagnosticCode, Seq<char>)>,
}

impl ParsedLine {
    pub open spec fn view(&self) -> LineView {
        LineView {
            event: match self.event {
                Some(e) => Some(e.view()),
                None => None,
            },
            diagnostic: match self.diagnostic {
                Some(d) => Some((d.code, d.message@)),
                None => None,
            },
        }
    }
}

// ---------------------------------------------------------------------------
// Protocol strings
// ---------------------------------------------------------------------------
pub open spec fn enter_ecliptica_marker() -> Seq<char> {
    "[Behaviour] Entering Room: Ecliptica"@
}

pub open spec fn enter_room_marker() -> Seq<char> {
    "[Behaviour] Entering Room:"@
}

pub open spec fn leave_room_marker() -> Seq<char> {
    "[Behaviour] OnLeftRoom"@
}

pub open spec fn stage_marker() -> Seq<char> {
    "ECLIPTICA - now in stage:"@
}

pub open spec fn intermission_marker() -> Seq<char> {
    "ECLIPTICA - now in intermission"@
}

pub open spec fn lobby_marker() -> Seq<char> {
    "ECLIPTICA - now in lobby"@
}

pub open spec fn boss_marker() -> Seq<char> {
    "ECLIPTICA - now fighting boss:"@
}

pub open spec fn damage_marker() -> Seq<char> {
    "Dealing"@
}

pub open spec fn damage_suffix_marker() -> Seq<char> {
    "damage"@
}

pub open spec fn damage_taken_marker() -> Seq<char> {
    "damage has been taken:"@
}

pub open spec fn ownership_marker() -> Seq<char> {
    "ownership of"@
}

pub open spec fn ownership_transfer_marker() -> Seq<char> {
    "transferred to"@
}

pub open spec fn boss_defeated_prefix() -> Seq<char> {
    "Boss "@
}

pub open spec fn boss_defeated_suffix() -> Seq<char> {
    "dead, personal damage dealt:"@
}

// ---------------------------------------------------------------------------
// Character classes and runs
// ---------------------------------------------------------------------------
pub open spec fn is_ascii_digit(c: char) -> bool {
    '0' <= c && c <= '9'
}

/// End of the longest run starting at `i` of characters in the class (ASCII
/// digits when `ascii`, Unicode decimal digits otherwise).
pub open spec fn digit_run_end(s: Seq<char>, i: int, ascii: bool) -> int
    decreases s.len() - i,
{
    if 0 <= i < s.len() && (if ascii {
        is_ascii_digit(s[i])
    } else {
        spec_is_decimal_digit(s[i])
    }) {
        digit_run_end(s, i + 1, ascii)
    } else {
        i
    }
}

pub proof fn lemma_digit_run_end(s: Seq<char>, i: int, ascii: bool)
    requires
        0 <= i <= s.len(),
    ensures
        i <= digit_run_end(s, i, ascii) <= s.len(),
        forall|k: int|
            i <= k < digit_run_end(s, i, ascii) ==> (if ascii {
                is_ascii_digit(#[trigger] s[k])
            } else {
                spec_is_decimal_digit(s[k])
            }),
    decreases s.len() - i,
{
    if i < s.len() && (if ascii {
        is_ascii_digit(s[i])
    } else {
        spec_is_decimal_digit(s[i])
    }) {
        lemma_digit_run_end(s, i + 1, ascii);
    }
}

fn in_class(c: char, ascii: bool) -> (r: bool)
    ensures
        r == (if ascii {
            is_ascii_digit(c)
        } else {
            spec_is_decimal_digit(c)
        }),
{
    if ascii {
        '0' <= c && c <= '9'
    } else {
        is_decimal_digit(c)
    }
}

fn digit_end(s: &[char], i: usize, ascii: bool) -> (r: usize)
    requires
        i <= s@.len(),
    ensures
        r as int == digit_run_end(s@, i as int, ascii),
        i <= r <= s@.len(),
{
    let mut j = i;
    while j < s.len() && in_class(s[j], ascii)
        invariant
            i <= j <= s@.len(),
            digit_run_end(s@, j as int, ascii) == digit_run_end(s@, i as int, ascii),
        decreases s@.len() - j,
    {
        j = j + 1;
    }
    proof {
        lemma_digit_run_end(s@, i as int, ascii);
    }
    j
}

/// No line break inside `s[i..j)` (the regular-expression `.` excludes it).
pub open spec fn no_newline(s: Seq<char>, i: int, j: int) -> bool {
    forall|k: int| i <= k < j ==> #[trigger] s[k] != '\n'
}

// ---------------------------------------------------------------------------
// Lazy fields: `(\s*|\s+)(.+?)` followed by a tail
// ---------------------------------------------------------------------------
/// `s[b..c)` is a candidate for a lazy field `.+?` whose continuation at `c`
/// satisfies `tail`.
pub open spec fn lazy_valid(s: Seq<char>, tail: spec_fn(int) -> bool, b: int, c: int) -> bool {
    &&& 0 <= b < c <= s.len()
    &&& no_newline(s, b, c)
    &&& tail(c)
}

/// Some split exists with the white-space prefix ending at `b` in `[bmin, bmax]`.
pub open spec fn has_lazy(s: Seq<char>, tail: spec_fn(int) -> bool, bmin: int, bmax: int) -> bool {
    exists|b: int, c: int| bmin <= b <= bmax && lazy_valid(s, tail, b, c)
}

/// `(b, c)` is the split that a backtracking engine finds first: the greedy
/// white-space prefix is as long as possible, then the lazy field is as short
/// as possible.
pub open spec fn first_lazy(
    s: Seq<char>,
    tail: spec_fn(int) -> bool,
    bmin: int,
    bmax: int,
    b: int,
    c: int,
) -> bool {
    &&& bmin <= b <= bmax
    &&& lazy_valid(s, tail, b, c)
    &&& forall|b2: int, c2: int| b < b2 <= bmax ==> !lazy_valid(s, tail, b2, c2)
    &&& forall|c2: int| c2 < c ==> !lazy_valid(s, tail, b, c2)
}

pub proof fn lemma_first_lazy_unique(
    s: Seq<char>,
    tail: spec_fn(int) -> bool,
    bmin: int,
    bmax: int,
    b1: int,
    c1: int,
    b2: int,
    c2: int,
)
    requires
        first_lazy(s, tail, bmin, bmax, b1, c1),
        first_lazy(s, tail, bmin, bmax, b2, c2),
    ensures
        b1 == b2 && c1 == c2,
{
    if b1 < b2 {
        assert(!lazy_valid(s, tail, b2, c2));
    } else if b2 < b1 {
        assert(!lazy_valid(s, tail, b1, c1));
    } else if c1 < c2 {
        assert(!lazy_valid(s, tail, b2, c1));
    } else if c2 < c1 {
        assert(!lazy_valid(s, tail, b1, c2));
    }
}

/// The first split, when one exists.
pub open spec fn chosen_lazy(s: Seq<char>, tail: spec_fn(int) -> bool, bmin: int, bmax: int) -> (
    int,
    int,
) {
    choose|b: int, c: int| first_lazy(s, tail, bmin, bmax, b, c)
}

/// Searches the splits in the engine's order; `ok[c]` is the tail at `c`.
fn search_lazy(
    s: &[char],
    bmin: usize,
    bmax: usize,
    ok: &Vec<bool>,
    Ghost(tail): Ghost<spec_fn(int) -> bool>,
) -> (r: Option<(usize, usize)>)
    requires
        bmax <= s@.len(),
        ok@.len() == s@.len() + 1,
        forall|c: int| 0 <= c <= s@.len() ==> ok@[c] == tail(c),
    ensures
        match r {
            Some((b, c)) => first_lazy(s@, tail, bmin as int, bmax as int, b as int, c as int),
            None => !has_lazy(s@, tail, bmin as int, bmax as int),
        },
{
    let n = s.len();
    if bmin > bmax {
        return None;
    }
    let mut b = bmax;
    loop
        invariant
            bmin <= b <= bmax <= n,
            n == s@.len(),
            ok@.len() == n + 1,
            forall|c: int| 0 <= c <= n ==> ok@[c] == tail(c),
            forall|b2: int, c2: int| b < b2 <= bmax ==> !lazy_valid(s@, tail, b2, c2),
        decreases b,
    {
        if b < n {
            let mut i = b;
            while i < n && s[i] != '\n'
                invariant
                    b <= i <= n,
                    b < n,
                    bmin <= b <= bmax <= n,
                    n == s@.len(),
                    ok@.len() == n + 1,
                    forall|x: int| 0 <= x <= n ==> ok@[x] == tail(x),
                    no_newline(s@, b as int, i as int),
                    forall|c2: int| c2 <= i ==> !lazy_valid(s@, tail, b as int, c2),
                    forall|b2: int, c2: int| b < b2 <= bmax ==> !lazy_valid(s@, tail, b2, c2),
                decreases n - i,
            {
                let c = i + 1;
                assert(no_newline(s@, b as int, c as int));
                if ok[c] {
                    assert(lazy_valid(s@, tail, b as int, c as int));
                    return Some((b, c));
                }
                i = c;
            }
            assert forall|c2: int| !lazy_valid(s@, tail, b as int, c2) by {
                if c2 > i && i < n {
                    assert(s@[i as int] == '\n');
                }
            }
        }
        assert(forall|c2: int| !lazy_valid(s@, tail, b as int, c2));
        if b == bmin {
            return None;
        }
        b = b - 1;
    }
}

// ---------------------------------------------------------------------------
// Tails of the signal grammars
// ---------------------------------------------------------------------------
/// After the boss name: `\(Clone\)\s+on phase:`.
pub open spec fn boss_tail(s: Seq<char>, c: int) -> bool {
    &&& has_at(s, c, "(Clone)"@)
    &&& ws_run_end(s, c + 7) > c + 7
    &&& has_at(s, ws_run_end(s, c + 7), "on phase:"@)
}

/// After the defeated boss name: `\s+dead, personal damage dealt:`.
pub open spec fn defeated_tail(s: Seq<char>, c: int) -> bool {
    &&& ws_run_end(s, c) > c
    &&& has_at(s, ws_run_end(s, c), boss_defeated_suffix())
}

/// After the player name: `\s*$`.
pub open spec fn end_tail(s: Seq<char>, c: int) -> bool {
    ws_run_end(s, c) == s.len()
}

/// The player part `transferred to\s+(.+?)\s*$` starting at `g`.
pub open spec fn player_bounds(s: Seq<char>, g: int) -> (int, int) {
    (g + 15, ws_run_end(s, g + 14))
}

/// After the transferred object: `\s+transferred to\s+(.+?)\s*$`.
pub open spec fn object_tail(s: Seq<char>, c: int) -> bool {
    let g = ws_run_end(s, c);
    &&& g > c
    &&& has_at(s, g, ownership_transfer_marker())
    &&& has_lazy(s, |k: int| end_tail(s, k), g + 15, ws_run_end(s, g + 14))
}

/// The decimal phase `on phase:\s*([0-9]+(?:\.[0-9]+)?)\s+as class:` at `d`:
/// the bounds of the number.
pub open spec fn phase_span(s: Seq<char>, d: int) -> Option<(int, int)> {
    let q = ws_run_end(s, d + 9);
    let r1 = digit_run_end(s, q, true);
    let r2 = if r1 + 1 < s.len() && s[r1] == '.' && is_ascii_digit(s[r1 + 1]) {
        digit_run_end(s, r1 + 1, true)
    } else {
        r1
    };
    if has_at(s, d, "on phase:"@) && r1 > q && r2 < s.len() && spec_is_white_space(s[r2])
        && has_at(s, ws_run_end(s, r2), "as class:"@) {
        Some((q, r2))
    } else {
        None
    }
}

/// After the stage name: `\s+on phase:...as class:`.
pub open spec fn stage_tail(s: Seq<char>, c: int) -> bool {
    ws_run_end(s, c) > c && phase_span(s, ws_run_end(s, c)) is Some
}

// ---------------------------------------------------------------------------
// Leftmost matches
// ---------------------------------------------------------------------------
pub open spec fn boss_match(s: Seq<char>, p: int) -> bool {
    has_at(s, p, boss_marker()) && has_lazy(
        s,
        |c: int| boss_tail(s, c),
        p + 30,
        ws_run_end(s, p + 30),
    )
}

pub open spec fn defeated_match(s: Seq<char>, p: int) -> bool {
    has_at(s, p, "Boss"@) && has_lazy(s, |c: int| defeated_tail(s, c), p + 5, ws_run_end(s, p + 4))
}

pub open spec fn ownership_match(s: Seq<char>, p: int) -> bool {
    has_at(s, p, ownership_marker()) && has_lazy(
        s,
        |c: int| object_tail(s, c),
        p + 13,
        ws_run_end(s, p + 12),
    )
}

pub open spec fn stage_match(s: Seq<char>, p: int) -> bool {
    has_at(s, p, stage_marker()) && has_lazy(
        s,
        |c: int| stage_tail(s, c),
        p + 25,
        ws_run_end(s, p + 25),
    )
}

/// `Dealing\s+(\d+)\s+(?:STRIKE|NON-STRIKE)\s+damage` at `p`: digit bounds.
pub open spec fn damage_span(s: Seq<char>, p: int) -> Option<(int, int)> {
    let d0 = ws_run_end(s, p + 7);
    let d1 = digit_run_end(s, d0, false);
    let w = ws_run_end(s, d1);
    let x = if has_at(s, w, "STRIKE"@) {
        w + 6
    } else {
        w + 10
    };
    if has_at(s, p, damage_marker()) && d0 > p + 7 && d1 > d0 && w > d1 && (has_at(
        s,
        w,
        "STRIKE"@,
    ) || has_at(s, w, "NON-STRIKE"@)) && ws_run_end(s, x) > x && has_at(
        s,
        ws_run_end(s, x),
        "damage"@,
    ) {
        Some((d0, d1))
    } else {
        None
    }
}

/// `damage has been taken:\s*(\d+)` at `p`: digit bounds.
pub open spec fn damage_taken_span(s: Seq<char>, p: int) -> Option<(int, int)> {
    let d0 = ws_run_end(s, p + 22);
    let d1 = digit_run_end(s, d0, false);
    if has_at(s, p, damage_taken_marker()) && d1 > d0 {
        Some((d0, d1))
    } else {
        None
    }
}

/// The leftmost position satisfying `m`.
pub open spec fn leftmost(m: spec_fn(int) -> bool) -> int {
    choose|p: int| is_leftmost(m, p)
}

/// `p` is the smallest position satisfying `m`.
pub open spec fn is_leftmost(m: spec_fn(int) -> bool, p: int) -> bool {
    m(p) && forall|q: int| q < p ==> !#[trigger] m(q)
}

pub open spec fn has_match(m: spec_fn(int) -> bool) -> bool {
    exists|p: int| #[trigger] m(p)
}

/// The text captured by the lazy field of the leftmost match.
pub open spec fn lazy_capture(
    s: Seq<char>,
    m: spec_fn(int) -> bool,
    tail: spec_fn(int) -> bool,
    offset: int,
    min_ws: int,
) -> Option<Seq<char>> {
    if has_match(m) {
        let p = leftmost(m);
        let (b, c) = chosen_lazy(s, tail, p + offset + min_ws, ws_run_end(s, p + offset));
        Some(s.subrange(b, c))
    } else {
        None
    }
}

/// Name captured by `ECLIPTICA - now fighting boss:\s*(.+?)\(Clone\)\s+on phase:`.
pub open spec fn boss_capture(s: Seq<char>) -> Option<Seq<char>> {
    lazy_capture(s, |p: int| boss_match(s, p), |c: int| boss_tail(s, c), 30, 0)
}

/// Name captured by `Boss\s+(.+?)\s+dead, personal damage dealt:`.
pub open spec fn defeated_capture(s: Seq<char>) -> Option<Seq<char>> {
    lazy_capture(s, |p: int| defeated_match(s, p), |c: int| defeated_tail(s, c), 4, 1)
}

/// Object captured by `ownership of\s+(.+?)\s+transferred to\s+(.+?)\s*$`.
pub open spec fn object_capture(s: Seq<char>) -> Option<Seq<char>> {
    lazy_capture(s, |p: int| ownership_match(s, p), |c: int| object_tail(s, c), 12, 1)
}

/// Player captured by the same match as [`object_capture`].
pub open spec fn player_capture(s: Seq<char>) -> Option<Seq<char>> {
    if has_match(|p: int| ownership_match(s, p)) {
        let p = leftmost(|p: int| ownership_match(s, p));
        let (b, c) = chosen_lazy(s, |c: int| object_tail(s, c), p + 13, ws_run_end(s, p + 12));
        let g = ws_run_end(s, c);
        let (h, k) = chosen_lazy(s, |k: int| end_tail(s, k), g + 15, ws_run_end(s, g + 14));
        Some(s.subrange(h, k))
    } else {
        None
    }
}

/// Phase text captured by the stage-details pattern.
pub open spec fn phase_capture(s: Seq<char>) -> Option<Seq<char>> {
    if has_match(|p: int| stage_match(s, p)) {
        let p = leftmost(|p: int| stage_match(s, p));
        let (b, c) = chosen_lazy(s, |c: int| stage_tail(s, c), p + 25, ws_run_end(s, p + 25));
        let (q, r) = phase_span(s, ws_run_end(s, c))->Some_0;
        Some(s.subrange(q, r))
    } else {
        None
    }
}

/// Digits captured by the damage pattern.
pub open spec fn damage_capture(s: Seq<char>) -> Option<Seq<char>> {
    if has_match(|p: int| damage_span(s, p) is Some) {
        let p = leftmost(|p: int| damage_span(s, p) is Some);
        let (d0, d1) = damage_span(s, p)->Some_0;
        Some(s.subrange(d0, d1))
    } else {
        None
    }
}

/// Digits captured by the damage-taken pattern.
pub open spec fn damage_taken_capture(s: Seq<char>) -> Option<Seq<char>> {
    if has_match(|p: int| damage_taken_span(s, p) is Some) {
        let p = leftmost(|p: int| damage_taken_span(s, p) is Some);
        let (d0, d1) = damage_taken_span(s, p)->Some_0;
        Some(s.subrange(d0, d1))
    } else {
        None
    }
}

/// A captured name is trimmed and must not be empty.
pub open spec fn named(capture: Option<Seq<char>>) -> Option<Seq<char>> {
    match capture {
        Some(t) => if trimmed(t).len() > 0 {
            Some(trimmed(t))
        } else {
            None
        },
        None => None,
    }
}

/// The amount of a captured digit sequence.
pub open spec fn amount_of(capture: Option<Seq<char>>) -> Option<u64> {
    match capture {
        Some(t) => parsed_u64(t),
        None => None,
    }
}

/// The timestamp text `^\d{4}\.\d{2}\.\d{2} \d{2}:\d{2}:\d{2}` at the start.
pub open spec fn timestamp_text(s: Seq<char>) -> Option<Seq<char>> {
    if s.len() >= 19 && (forall|k: int|
        0 <= k < 19 && k != 4 && k != 7 && k != 10 && k != 13 && k != 16
            ==> spec_is_decimal_digit(#[trigger] s[k])) && s[4] == '.' && s[7] == '.' && s[10]
        == ' ' && s[13] == ':' && s[16] == ':' {
        Some(s.take(19))
    } else {
        None
    }
}

// ---------------------------------------------------------------------------
// Line classification
// ---------------------------------------------------------------------------
pub open spec fn malformed(code: DiagnosticCode, message: Seq<char>) -> LineView {
    LineView { event: None, diagnostic: Some((code, message)) }
}

pub open spec fn event_line(e: EventView) -> LineView {
    LineView { event: Some(e), diagnostic: None }
}

/// Diagnostic for a recognized signal whose timestamp cannot be read.
pub open spec fn timestamp_failure(signal: Seq<char>) -> LineView {
    malformed(DiagnosticCode::Timestamp, signal + " 日志已出现，但时间戳格式无法识别；本条数据已安全跳过"@)
}

pub open spec fn stage_details_message() -> Seq<char> {
    "阶段日志仍可识别，但 phase/class 详情格式已变化；回合状态保留，阶段估算降级为未知"@
}

pub open spec fn value_message(code: DiagnosticCode) -> Seq<char> {
    code.spec_label() + " 日志格式或数值已变化，本条数据按缺失处理"@
}

pub open spec fn boss_message() -> Seq<char> {
    "Boss 日志格式已变化，Boss/锁定信息已降级为空"@
}

pub open spec fn defeated_message() -> Seq<char> {
    "Boss 击败日志格式已变化，锁定状态会等待后续事件清理"@
}

pub open spec fn ownership_message() -> Seq<char> {
    "所有权日志格式已变化，Boss Lock 已降级为空"@
}

/// What a log line means, given the Unix second of its timestamp (`None`
/// when the timestamp cannot be read or converted).
pub open spec fn classify(s: Seq<char>, second: Option<i64>) -> LineView {
    if contains_seq(s, enter_ecliptica_marker()) {
        match second {
            Some(t) => event_line(EventView::EnterEcliptica(t)),
            None => timestamp_failure("enter_ecliptica"@),
        }
    } else if contains_seq(s, enter_room_marker()) {
        match second {
            Some(t) => event_line(EventView::LeaveRoom(t)),
            None => timestamp_failure("room_transition"@),
        }
    } else if contains_seq(s, leave_room_marker()) {
        match second {
            Some(t) => event_line(EventView::LeaveRoom(t)),
            None => timestamp_failure("leave_room"@),
        }
    } else if contains_seq(s, intermission_marker()) || contains_seq(s, lobby_marker()) {
        match second {
            Some(t) => event_line(EventView::Intermission(t)),
            None => timestamp_failure("intermission"@),
        }
    } else if contains_seq(s, stage_marker()) {
        match second {
            Some(t) => LineView {
                event: Some(EventView::Stage(t, phase_capture(s))),
                diagnostic: if phase_capture(s) is None {
                    Some((DiagnosticCode::StageDetails, stage_details_message()))
                } else {
                    None
                },
            },
            None => timestamp_failure("stage"@),
        }
    } else if contains_seq(s, damage_taken_marker()) {
        match second {
            Some(t) => match amount_of(damage_taken_capture(s)) {
                Some(a) => event_line(EventView::DamageTaken(t, a)),
                None => malformed(
                    DiagnosticCode::DamageTaken,
                    value_message(DiagnosticCode::DamageTaken),
                ),
            },
            None => timestamp_failure("damage_taken"@),
        }
    } else if contains_seq(s, boss_marker()) {
        match second {
            Some(t) => match named(boss_capture(s)) {
                Some(n) => event_line(EventView::Boss(t, n)),
                None => malformed(DiagnosticCode::Boss, boss_message()),
            },
            None => timestamp_failure("boss"@),
        }
    } else if contains_seq(s, boss_defeated_prefix()) && contains_seq(s, boss_defeated_suffix()) {
        match second {
            Some(t) => match named(defeated_capture(s)) {
                Some(n) => event_line(EventView::BossDefeated(t, n)),
                None => malformed(DiagnosticCode::BossDefeated, defeated_message()),
            },
            None => timestamp_failure("boss_defeated"@),
        }
    } else if contains_seq(s, damage_marker()) && contains_seq(s, damage_suffix_marker()) {
        match second {
            Some(t) => match amount_of(damage_capture(s)) {
                Some(a) => event_line(EventView::Damage(t, a)),
                None => malformed(DiagnosticCode::Damage, value_message(DiagnosticCode::Damage)),
            },
            None => timestamp_failure("damage"@),
        }
    } else if contains_seq(s, ownership_marker()) && contains_seq(s, ownership_transfer_marker()) {
        match (named(object_capture(s)), named(player_capture(s))) {
            (Some(o), Some(p)) => event_line(EventView::Ownership(o, p)),
            _ => malformed(DiagnosticCode::Ownership, ownership_message()),
        }
    } else {
        LineView { event: None, diagnostic: None }
    }
}

// ---------------------------------------------------------------------------
// Executable matching
// ---------------------------------------------------------------------------
fn boss_tail_at(s: &[char], c: usize) -> (r: bool)
    requires
        c <= s@.len(),
    ensures
        r == boss_tail(s@, c as int),
{
    let n = s.len();
    let clone = chars_of("(Clone)");
    proof {
        reveal_strlit("(Clone)");
        reveal_strlit("on phase:");
    }
    if !matches_at(s, c, &clone) {
        return false;
    }
    let g = skip_white(s, c + 7);
    let phase = chars_of("on phase:");
    g > c + 7 && matches_at(s, g, &phase)
}

fn defeated_tail_at(s: &[char], c: usize) -> (r: bool)
    requires
        c <= s@.len(),
    ensures
        r == defeated_tail(s@, c as int),
{
    let g = skip_white(s, c);
    let suffix = chars_of("dead, personal damage dealt:");
    g > c && matches_at(s, g, &suffix)
}

fn end_tail_at(s: &[char], c: usize) -> (r: bool)
    requires
        c <= s@.len(),
    ensures
        r == end_tail(s@, c as int),
{
    skip_white(s, c) == s.len()
}

fn end_tails(s: &[char]) -> (ok: Vec<bool>)
    ensures
        ok@.len() == s@.len() + 1,
        forall|c: int| 0 <= c <= s@.len() ==> ok@[c] == end_tail(s@, c),
{
    let n = s.len();
    let mut ok: Vec<bool> = Vec::new();
    let mut c: usize = 0;
    while c < n
        invariant
            c <= n,
            n == s@.len(),
            ok@.len() == c,
            forall|x: int| 0 <= x < c ==> ok@[x] == end_tail(s@, x),
        decreases n - c,
    {
        ok.push(end_tail_at(s, c));
        c = c + 1;
    }
    ok.push(end_tail_at(s, n));
    ok
}

fn player_span(s: &[char], g: usize, ends: &Vec<bool>) -> (r: Option<(usize, usize)>)
    requires
        g + 14 <= s@.len(),
        ends@.len() == s@.len() + 1,
        forall|c: int| 0 <= c <= s@.len() ==> ends@[c] == end_tail(s@, c),
    ensures
        match r {
            Some((h, k)) => first_lazy(
                s@,
                |k: int| end_tail(s@, k),
                g + 15,
                ws_run_end(s@, g + 14),
                h as int,
                k as int,
            ),
            None => !has_lazy(s@, |k: int| end_tail(s@, k), g + 15, ws_run_end(s@, g + 14)),
        },
{
    let n = s.len();
    let hmax = skip_white(s, g + 14);
    if g + 14 == n {
        assert(!has_lazy(s@, |k: int| end_tail(s@, k), g + 15, ws_run_end(s@, g + 14)));
        return None;
    }
    search_lazy(s, g + 15, hmax, ends, Ghost(|k: int| end_tail(s@, k)))
}

fn object_tail_at(s: &[char], c: usize, ends: &Vec<bool>) -> (r: bool)
    requires
        c <= s@.len(),
        ends@.len() == s@.len() + 1,
        forall|x: int| 0 <= x <= s@.len() ==> ends@[x] == end_tail(s@, x),
    ensures
        r == object_tail(s@, c as int),
{
    let n = s.len();
    let g = skip_white(s, c);
    let transfer = chars_of("transferred to");
    proof {
        reveal_strlit("transferred to");
    }
    if g <= c || !matches_at(s, g, &transfer) {
        return false;
    }
    player_span(s, g, ends).is_some()
}

fn phase_span_at(s: &[char], d: usize) -> (r: Option<(usize, usize)>)
    requires
        d <= s@.len(),
    ensures
        match r {
            Some((q, e)) => phase_span(s@, d as int) == Some((q as int, e as int)) && q <= e
                <= s@.len(),
            None => phase_span(s@, d as int) is None,
        },
{
    let n = s.len();
    let on_phase = chars_of("on phase:");
    proof {
        reveal_strlit("on phase:");
    }
    if !matches_at(s, d, &on_phase) {
        return None;
    }
    let q = skip_white(s, d + 9);
    let r1 = digit_end(s, q, true);
    let r2 = if n > 0 && r1 < n - 1 && s[r1] == '.' && '0' <= s[r1 + 1] && s[r1 + 1] <= '9' {
        digit_end(s, r1 + 1, true)
    } else {
        r1
    };
    let class = chars_of("as class:");
    if r1 > q && r2 < s.len() && is_white_space(s[r2]) {
        let w = skip_white(s, r2);
        if matches_at(s, w, &class) {
            return Some((q, r2));
        }
    }
    None
}

fn stage_tail_at(s: &[char], c: usize) -> (r: bool)
    requires
        c <= s@.len(),
    ensures
        r == stage_tail(s@, c as int),
{
    let d = skip_white(s, c);
    d > c && phase_span_at(s, d).is_some()
}

/// Which tail a table holds.
enum Tail {
    Boss,
    Defeated,
    Object,
    Stage,
}

spec fn tail_of(kind: Tail, s: Seq<char>) -> spec_fn(int) -> bool {
    match kind {
        Tail::Boss => |c: int| boss_tail(s, c),
        Tail::Defeated => |c: int| defeated_tail(s, c),
        Tail::Object => |c: int| object_tail(s, c),
        Tail::Stage => |c: int| stage_tail(s, c),
    }
}

fn tails(s: &[char], kind: Tail) -> (ok: Vec<bool>)
    ensures
        ok@.len() == s@.len() + 1,
        forall|c: int| 0 <= c <= s@.len() ==> ok@[c] == (tail_of(kind, s@))(c),
{
    let n = s.len();
    let ends = end_tails(s);
    let mut ok: Vec<bool> = Vec::new();
    let mut c: usize = 0;
    while c <= n
        invariant
            c <= n + 1,
            n == s@.len(),
            ok@.len() == c,
            ends@.len() == n + 1,
            forall|x: int| 0 <= x <= n ==> ends@[x] == end_tail(s@, x),
            forall|x: int| 0 <= x < c ==> ok@[x] == (tail_of(kind, s@))(x),
        decreases n + 1 - c,
    {
        let v = match kind {
            Tail::Boss => boss_tail_at(s, c),
            Tail::Defeated => defeated_tail_at(s, c),
            Tail::Object => object_tail_at(s, c, &ends),
            Tail::Stage => stage_tail_at(s, c),
        };
        ok.push(v);
        if c == n {
            return ok;
        }
        c = c + 1;
    }
    ok
}

/// Leftmost occurrence of `marker` whose lazy field has a valid split, and
/// that split.
fn leftmost_lazy(
    s: &[char],
    marker: &[char],
    min_ws: usize,
    ok: &Vec<bool>,
    Ghost(m): Ghost<spec_fn(int) -> bool>,
    Ghost(tail): Ghost<spec_fn(int) -> bool>,
) -> (r: Option<(usize, usize, usize)>)
    requires
        min_ws <= 1,
        ok@.len() == s@.len() + 1,
        forall|c: int| 0 <= c <= s@.len() ==> ok@[c] == tail(c),
        forall|p: int|
            #[trigger] m(p) == (has_at(s@, p, marker@) && has_lazy(
                s@,
                tail,
                p + marker@.len() + min_ws,
                ws_run_end(s@, p + marker@.len()),
            )),
    ensures
        match r {
            Some((p, b, c)) => has_match(m) && p == leftmost(m) && first_lazy(
                s@,
                tail,
                p + marker@.len() + min_ws,
                ws_run_end(s@, p + marker@.len()),
                b as int,
                c as int,
            ),
            None => !has_match(m),
        },
{
    let n = s.len();
    let mut from: usize = 0;
    loop
        invariant
            n == s@.len(),
            forall|q: int| q < from ==> !#[trigger] m(q),
            ok@.len() == s@.len() + 1,
            forall|c: int| 0 <= c <= s@.len() ==> ok@[c] == tail(c),
            min_ws <= 1,
            forall|p: int|
                #[trigger] m(p) == (has_at(s@, p, marker@) && has_lazy(
                    s@,
                    tail,
                    p + marker@.len() + min_ws,
                    ws_run_end(s@, p + marker@.len()),
                )),
        decreases s@.len() + 1 - from,
    {
        match find_from(s, marker, from) {
            None => {
                assert forall|q: int| !#[trigger] m(q) by {
                    if q >= from {
                        assert(!has_at(s@, q, marker@));
                    }
                }
                return None;
            },
            Some(p) => {
                let a = p + marker.len();
                let bmax = skip_white(s, a);
                if a == n && min_ws == 1 {
                    assert(!m(p as int));
                    assert forall|q: int| !#[trigger] m(q) by {
                        if from <= q < p {
                            assert(!has_at(s@, q, marker@));
                        }
                        if q > p {
                            assert(!has_at(s@, q, marker@));
                        }
                    }
                    return None;
                }
                match search_lazy(s, a + min_ws, bmax, ok, Ghost(tail)) {
                    Some((b, c)) => {
                        assert(m(p as int));
                        assert forall|q: int| q < p implies !#[trigger] m(q) by {
                            if q >= from {
                                assert(!has_at(s@, q, marker@));
                            }
                        }
                        proof {
                            assert(is_leftmost(m, p as int));
                            assert(is_leftmost(m, leftmost(m)));
                            if leftmost(m) > p {
                                assert(!m(p as int));
                            }
                        }
                        return Some((p, b, c));
                    },
                    None => {
                        assert forall|q: int| q < p + 1 implies !#[trigger] m(q) by {
                            if from <= q < p {
                                assert(!has_at(s@, q, marker@));
                            }
                        }
                        if p >= n {
                            assert forall|q: int| !#[trigger] m(q) by {
                                if q > p {
                                    assert(!has_at(s@, q, marker@));
                                }
                            }
                            return None;
                        }
                        from = p + 1;
                    },
                }
            },
        }
    }
}

proof fn lemma_chosen_lazy(s: Seq<char>, tail: spec_fn(int) -> bool, bmin: int, bmax: int, b: int, c: int)
    requires
        first_lazy(s, tail, bmin, bmax, b, c),
    ensures
        chosen_lazy(s, tail, bmin, bmax) == (b, c),
{
    let (b2, c2) = chosen_lazy(s, tail, bmin, bmax);
    lemma_first_lazy_unique(s, tail, bmin, bmax, b, c, b2, c2);
}

/// Captured text of a lazy-field pattern, untrimmed.
fn lazy_text(s: &[char], marker: &str, min_ws: usize, kind: Tail) -> (r: Option<Vec<char>>)
    requires
        min_ws <= 1,
    ensures
        kind == Tail::Boss && marker@ == boss_marker() && min_ws == 0 ==> opt_chars(r) == boss_capture(s@),
        kind == Tail::Defeated && marker@ == "Boss"@ && min_ws == 1 ==> opt_chars(r) == defeated_capture(s@),
        kind == Tail::Object && marker@ == ownership_marker() && min_ws == 1 ==> opt_chars(r) == object_capture(s@),
{
    let pat = chars_of(marker);
    let ok = tails(s, kind);
    let ghost tail = tail_of(kind, s@);
    let ghost m = |p: int| has_at(s@, p, marker@) && has_lazy(
        s@,
        tail,
        p + marker@.len() + min_ws,
        ws_run_end(s@, p + marker@.len()),
    );
    match leftmost_lazy(s, &pat, min_ws, &ok, Ghost(m), Ghost(tail)) {
        Some((p, b, c)) => {
            proof {
                lemma_chosen_lazy(s@, tail, p + marker@.len() + min_ws, ws_run_end(s@, p + marker@.len()), b as int, c as int);
                reveal_strlit("ECLIPTICA - now fighting boss:");
                reveal_strlit("Boss");
                reveal_strlit("ownership of");
                if kind == Tail::Boss && marker@ == boss_marker() && min_ws == 0 {
                    assert(m == (|p: int| boss_match(s@, p)));
                }
                if kind == Tail::Defeated && marker@ == "Boss"@ && min_ws == 1 {
                    assert(m == (|p: int| defeated_match(s@, p)));
                }
                if kind == Tail::Object && marker@ == ownership_marker() && min_ws == 1 {
                    assert(m == (|p: int| ownership_match(s@, p)));
                }
            }
            Some(slice_chars(s, b, c))
        },
        None => {
            proof {
                reveal_strlit("ECLIPTICA - now fighting boss:");
                reveal_strlit("Boss");
                reveal_strlit("ownership of");
                if kind == Tail::Boss && marker@ == boss_marker() && min_ws == 0 {
                    assert(m == (|p: int| boss_match(s@, p)));
                }
                if kind == Tail::Defeated && marker@ == "Boss"@ && min_ws == 1 {
                    assert(m == (|p: int| defeated_match(s@, p)));
                }
                if kind == Tail::Object && marker@ == ownership_marker() && min_ws == 1 {
                    assert(m == (|p: int| ownership_match(s@, p)));
                }
            }
            None
        },
    }
}

pub open spec fn opt_chars(o: Option<Vec<char>>) -> Option<Seq<char>> {
    match o {
        Some(v) => Some(v@),
        None => None,
    }
}

fn damage_span_at(s: &[char], p: usize) -> (r: Option<(usize, usize)>)
    requires
        p <= s@.len(),
    ensures
        match r {
            Some((d0, d1)) => damage_span(s@, p as int) == Some((d0 as int, d1 as int)),
            None => damage_span(s@, p as int) is None,
        },
{
    let n = s.len();
    let dealing = chars_of("Dealing");
    let strike = chars_of("STRIKE");
    let non_strike = chars_of("NON-STRIKE");
    let damage = chars_of("damage");
    proof {
        reveal_strlit("Dealing");
        reveal_strlit("STRIKE");
        reveal_strlit("NON-STRIKE");
    }
    if !matches_at(s, p, &dealing) {
        return None;
    }
    let d0 = skip_white(s, p + 7);
    let d1 = digit_end(s, d0, false);
    let w = skip_white(s, d1);
    let is_strike = matches_at(s, w, &strike);
    let is_non_strike = matches_at(s, w, &non_strike);
    if d0 <= p + 7 || d1 <= d0 || w <= d1 || !(is_strike || is_non_strike) {
        return None;
    }
    let x = if is_strike {
        w + 6
    } else {
        w + 10
    };
    let y = skip_white(s, x);
    if y > x && matches_at(s, y, &damage) {
        Some((d0, d1))
    } else {
        None
    }
}

fn damage_taken_span_at(s: &[char], p: usize) -> (r: Option<(usize, usize)>)
    requires
        p <= s@.len(),
    ensures
        match r {
            Some((d0, d1)) => damage_taken_span(s@, p as int) == Some((d0 as int, d1 as int)),
            None => damage_taken_span(s@, p as int) is None,
        },
{
    let n = s.len();
    let marker = chars_of("damage has been taken:");
    proof {
        reveal_strlit("damage has been taken:");
    }
    if !matches_at(s, p, &marker) {
        return None;
    }
    let d0 = skip_white(s, p + 22);
    let d1 = digit_end(s, d0, false);
    if d1 > d0 {
        Some((d0, d1))
    } else {
        None
    }
}

spec fn span_at(taken: bool, s: Seq<char>, p: int) -> Option<(int, int)> {
    if taken {
        damage_taken_span(s, p)
    } else {
        damage_span(s, p)
    }
}

/// Leftmost match of the damage (or damage-taken) pattern and its digits.
fn leftmost_span(s: &[char], taken: bool) -> (r: Option<(usize, usize)>)
    ensures
        match r {
            Some((d0, d1)) => has_match(|p: int| span_at(taken, s@, p) is Some) && span_at(
                taken,
                s@,
                leftmost(|p: int| span_at(taken, s@, p) is Some),
            ) == Some((d0 as int, d1 as int)),
            None => !has_match(|p: int| span_at(taken, s@, p) is Some),
        },
{
    let n = s.len();
    let ghost m = |p: int| span_at(taken, s@, p) is Some;
    let marker = if taken {
        chars_of("damage has been taken:")
    } else {
        chars_of("Dealing")
    };
    let mut from: usize = 0;
    loop
        invariant
            n == s@.len(),
            marker@ == (if taken {
                "damage has been taken:"@
            } else {
                "Dealing"@
            }),
            m == (|p: int| span_at(taken, s@, p) is Some),
            forall|q: int| q < from ==> !#[trigger] m(q),
        decreases n + 1 - from,
    {
        match find_from(s, &marker, from) {
            None => {
                assert forall|q: int| !#[trigger] m(q) by {
                    if q >= from {
                        assert(!has_at(s@, q, marker@));
                    }
                }
                return None;
            },
            Some(p) => {
                let span = if taken {
                    damage_taken_span_at(s, p)
                } else {
                    damage_span_at(s, p)
                };
                match span {
                    Some((d0, d1)) => {
                        proof {
                            assert(m(p as int));
                            assert forall|q: int| q < p implies !#[trigger] m(q) by {
                                if q >= from {
                                    assert(!has_at(s@, q, marker@));
                                }
                            }
                            assert(is_leftmost(m, p as int));
                            assert(is_leftmost(m, leftmost(m)));
                            if leftmost(m) > p {
                                assert(!m(p as int));
                            }
                        }
                        return Some((d0, d1));
                    },
                    None => {
                        assert forall|q: int| q < p + 1 implies !#[trigger] m(q) by {
                            if from <= q < p {
                                assert(!has_at(s@, q, marker@));
                            }
                        }
                        if p >= n {
                            assert forall|q: int| !#[trigger] m(q) by {
                                if q > p {
                                    assert(!has_at(s@, q, marker@));
                                }
                            }
                            return None;
                        }
                        from = p + 1;
                    },
                }
            },
        }
    }
}

proof fn lemma_digit_span(s: Seq<char>, d0: int, d1: int)
    requires
        0 <= d0 <= s.len(),
        d1 == digit_run_end(s, d0, false),
    ensures
        forall|k: int| 0 <= k < d1 - d0 ==> spec_is_decimal_digit(#[trigger] s.subrange(d0, d1)[k]),
{
    lemma_digit_run_end(s, d0, false);
    assert forall|k: int| 0 <= k < d1 - d0 implies spec_is_decimal_digit(
        #[trigger] s.subrange(d0, d1)[k],
    ) by {
        assert(s.subrange(d0, d1)[k] == s[d0 + k]);
    }
}

/// The amount captured by the damage (or damage-taken) pattern.
fn captured_amount(s: &[char], taken: bool) -> (r: Option<u64>)
    ensures
        taken ==> r == amount_of(damage_taken_capture(s@)),
        !taken ==> r == amount_of(damage_capture(s@)),
{
    match leftmost_span(s, taken) {
        Some((d0, d1)) => {
            proof {
                assert(d0 <= d1 <= s@.len()) by {
                    if taken {
                        lemma_digit_run_end(s@, d0 as int, false);
                    } else {
                        lemma_digit_run_end(s@, d0 as int, false);
                    }
                }
                lemma_digit_span(s@, d0 as int, d1 as int);
                if taken {
                    assert((|p: int| span_at(taken, s@, p) is Some) == (|p: int| damage_taken_span(s@, p) is Some));
                } else {
                    assert((|p: int| span_at(taken, s@, p) is Some) == (|p: int| damage_span(s@, p) is Some));
                }
            }
            let digits = slice_chars(s, d0, d1);
            parse_u64(&digits)
        },
        None => {
            proof {
                if taken {
                    assert((|p: int| span_at(taken, s@, p) is Some) == (|p: int| damage_taken_span(s@, p) is Some));
                } else {
                    assert((|p: int| span_at(taken, s@, p) is Some) == (|p: int| damage_span(s@, p) is Some));
                }
            }
            None
        },
    }
}

/// The phase text of the leftmost stage-details match.
fn stage_phase(s: &[char]) -> (r: Option<Vec<char>>)
    ensures
        opt_chars(r) == phase_capture(s@),
{
    let pat = chars_of("ECLIPTICA - now in stage:");
    proof {
        reveal_strlit("ECLIPTICA - now in stage:");
    }
    let ok = tails(s, Tail::Stage);
    let ghost tail = tail_of(Tail::Stage, s@);
    let ghost m = |p: int| has_at(s@, p, pat@) && has_lazy(
        s@,
        tail,
        p + pat@.len() + 0,
        ws_run_end(s@, p + pat@.len()),
    );
    proof {
        assert(m == (|p: int| stage_match(s@, p)));
    }
    match leftmost_lazy(s, &pat, 0, &ok, Ghost(m), Ghost(tail)) {
        Some((p, b, c)) => {
            proof {
                lemma_chosen_lazy(s@, tail, p + 25, ws_run_end(s@, p + 25), b as int, c as int);
            }
            let d = skip_white(s, c);
            match phase_span_at(s, d) {
                Some((q, e)) => {
                    Some(slice_chars(s, q, e))
                },
                None => {
                    assert(false);
                    None
                },
            }
        },
        None => None,
    }
}

/// The timestamp prefix of a line.
fn timestamp_prefix(s: &[char]) -> (r: Option<Vec<char>>)
    ensures
        opt_chars(r) == timestamp_text(s@),
{
    if s.len() < 19 {
        return None;
    }
    let mut k: usize = 0;
    while k < 19
        invariant
            k <= 19,
            19 <= s@.len(),
            forall|j: int|
                0 <= j < k && j != 4 && j != 7 && j != 10 && j != 13 && j != 16
                    ==> spec_is_decimal_digit(#[trigger] s@[j]),
        decreases 19 - k,
    {
        if k != 4 && k != 7 && k != 10 && k != 13 && k != 16 && !is_decimal_digit(s[k]) {
            return None;
        }
        k = k + 1;
    }
    if s[4] == '.' && s[7] == '.' && s[10] == ' ' && s[13] == ':' && s[16] == ':' {
        let r = slice_chars(s, 0, 19);
        assert(r@ =~= s@.take(19));
        Some(r)
    } else {
        None
    }
}

/// A captured name, trimmed, when it is not blank.
fn named_text(capture: Option<Vec<char>>) -> (r: Option<String>)
    ensures
        opt_string_view(r) == named(opt_chars(capture)),
{
    match capture {
        Some(t) => {
            let trimmed_text = trim(&t);
            if trimmed_text.len() > 0 {
                Some(string_of(&trimmed_text))
            } else {
                None
            }
        },
        None => None,
    }
}

fn message_of(prefix: &str, rest: &str) -> (r: String)
    ensures
        r@ == prefix@ + rest@,
{
    let mut v = chars_of(prefix);
    append_str(&mut v, rest);
    string_of(&v)
}

fn diagnostic_line(code: DiagnosticCode, message: String) -> (r: ParsedLine)
    ensures
        r@ == malformed(code, message@),
{
    ParsedLine { event: None, diagnostic: Some(ProtocolDiagnostic { code, message }) }
}

fn event_only(e: ParsedEvent) -> (r: ParsedLine)
    ensures
        r@ == event_line(e.view()),
{
    ParsedLine { event: Some(e), diagnostic: None }
}

fn timestamp_failure_line(signal: &str) -> (r: ParsedLine)
    ensures
        r@ == timestamp_failure(signal@),
{
    diagnostic_line(
        DiagnosticCode::Timestamp,
        message_of(signal, " 日志已出现，但时间戳格式无法识别；本条数据已安全跳过"),
    )
}

fn value_failure_line(code: DiagnosticCode) -> (r: ParsedLine)
    ensures
        r@ == malformed(code, value_message(code)),
{
    diagnostic_line(code, message_of(code.label(), " 日志格式或数值已变化，本条数据按缺失处理"))
}

/// Interprets one log line, given the Unix second of its timestamp.
pub fn classify_line(line: &str, second: Option<i64>) -> (r: ParsedLine)
    ensures
        r@ == classify(line@, second),
{
    let s = chars_of(line);
    if contains_str(&s, "[Behaviour] Entering Room: Ecliptica") {
        return match second {
            Some(t) => event_only(ParsedEvent::EnterEcliptica { second: t }),
            None => timestamp_failure_line("enter_ecliptica"),
        };
    }
    if contains_str(&s, "[Behaviour] Entering Room:") {
        return match second {
            Some(t) => event_only(ParsedEvent::LeaveRoom { second: t }),
            None => timestamp_failure_line("room_transition"),
        };
    }
    if contains_str(&s, "[Behaviour] OnLeftRoom") {
        return match second {
            Some(t) => event_only(ParsedEvent::LeaveRoom { second: t }),
            None => timestamp_failure_line("leave_room"),
        };
    }
    if contains_str(&s, "ECLIPTICA - now in intermission") || contains_str(
        &s,
        "ECLIPTICA - now in lobby",
    ) {
        return match second {
            Some(t) => event_only(ParsedEvent::Intermission { second: t }),
            None => timestamp_failure_line("intermission"),
        };
    }
    if contains_str(&s, "ECLIPTICA - now in stage:") {
        return match second {
            Some(t) => {
                let phase = stage_phase(&s);
                let diagnostic = if phase.is_none() {
                    Some(
                        ProtocolDiagnostic {
                            code: DiagnosticCode::StageDetails,
                            message: owned(
                                "阶段日志仍可识别，但 phase/class 详情格式已变化；回合状态保留，阶段估算降级为未知",
                            ),
                        },
                    )
                } else {
                    None
                };
                let phase_text = match phase {
                    Some(v) => Some(string_of(&v)),
                    None => None,
                };
                ParsedLine {
                    event: Some(ParsedEvent::Stage { second: t, phase: phase_text }),
                    diagnostic,
                }
            },
            None => timestamp_failure_line("stage"),
        };
    }
    if contains_str(&s, "damage has been taken:") {
        return match second {
            Some(t) => match captured_amount(&s, true) {
                Some(amount) => event_only(ParsedEvent::DamageTaken { second: t, amount }),
                None => value_failure_line(DiagnosticCode::DamageTaken),
            },
            None => timestamp_failure_line("damage_taken"),
        };
    }
    if contains_str(&s, "ECLIPTICA - now fighting boss:") {
        return match second {
            Some(t) => match named_text(lazy_text(&s, "ECLIPTICA - now fighting boss:", 0, Tail::Boss)) {
                Some(name) => event_only(ParsedEvent::Boss { second: t, name }),
                None => diagnostic_line(
                    DiagnosticCode::Boss,
                    owned("Boss 日志格式已变化，Boss/锁定信息已降级为空"),
                ),
            },
            None => timestamp_failure_line("boss"),
        };
    }
    if contains_str(&s, "Boss ") && contains_str(&s, "dead, personal damage dealt:") {
        return match second {
            Some(t) => match named_text(lazy_text(&s, "Boss", 1, Tail::Defeated)) {
                Some(name) => event_only(ParsedEvent::BossDefeated { second: t, name }),
                None => diagnostic_line(
                    DiagnosticCode::BossDefeated,
                    owned("Boss 击败日志格式已变化，锁定状态会等待后续事件清理"),
                ),
            },
            None => timestamp_failure_line("boss_defeated"),
        };
    }
    if contains_str(&s, "Dealing") && contains_str(&s, "damage") {
        return match second {
            Some(t) => match captured_amount(&s, false) {
                Some(amount) => event_only(ParsedEvent::Damage { second: t, amount }),
                None => value_failure_line(DiagnosticCode::Damage),
            },
            None => timestamp_failure_line("damage"),
        };
    }
    if contains_str(&s, "ownership of") && contains_str(&s, "transferred to") {
        let object = named_text(lazy_text(&s, "ownership of", 1, Tail::Object));
        let player = named_text(player_text(&s));
        return match (object, player) {
            (Some(object), Some(player)) => event_only(ParsedEvent::Ownership { object, player }),
            _ => diagnostic_line(
                DiagnosticCode::Ownership,
                owned("所有权日志格式已变化，Boss Lock 已降级为空"),
            ),
        };
    }
    ParsedLine { event: None, diagnostic: None }
}

/// Player captured by the ownership pattern.
fn player_text(s: &[char]) -> (r: Option<Vec<char>>)
    ensures
        opt_chars(r) == player_capture(s@),
{
    let n = s.len();
    let pat = chars_of("ownership of");
    proof {
        reveal_strlit("ownership of");
        reveal_strlit("transferred to");
    }
    let ok = tails(s, Tail::Object);
    let ends = end_tails(s);
    let ghost tail = tail_of(Tail::Object, s@);
    let ghost m = |p: int| has_at(s@, p, pat@) && has_lazy(
        s@,
        tail,
        p + pat@.len() + 1,
        ws_run_end(s@, p + pat@.len()),
    );
    proof {
        assert(m == (|p: int| ownership_match(s@, p)));
    }
    match leftmost_lazy(s, &pat, 1, &ok, Ghost(m), Ghost(tail)) {
        Some((p, b, c)) => {
            proof {
                lemma_chosen_lazy(s@, tail, p + 13, ws_run_end(s@, p + 12), b as int, c as int);
            }
            let g = skip_white(s, c);
            match player_span(s, g, &ends) {
                Some((h, k)) => {
                    proof {
                        lemma_chosen_lazy(
                            s@,
                            |k: int| end_tail(s@, k),
                            g + 15,
                            ws_run_end(s@, g + 14),
                            h as int,
                            k as int,
                        );
                    }
                    Some(slice_chars(s, h, k))
                },
                None => {
                    assert(false);
                    None
                },
            }
        },
        None => None,
    }
}

/// The layout of a log timestamp, in chrono's format syntax.
pub const LOG_TIMESTAMP_FORMAT: &'static str = "%Y.%m.%d %H:%M:%S";

/// The Unix seconds of the local wall-clock time `text` written in
/// `format`: chrono's `NaiveDateTime::parse_from_str` then
/// `Local::from_local_datetime`. A single mapping gives `(second, None)`, an
/// ambiguous one (a clock turned back) gives both seconds, a time that does
/// not exist locally or text that does not parse gives `None`. The result
/// depends on the machine's time zone, so nothing is claimed of it.
#[verifier::external_body]
fn local_seconds(text: &str, format: &str) -> Option<(i64, Option<i64>)> {
    match chrono::NaiveDateTime::parse_from_str(text, format) {
        Ok(parsed) => match chrono::TimeZone::from_local_datetime(&chrono::Local, &parsed) {
            chrono::LocalResult::Single(t) => Some((t.timestamp(), None)),
            chrono::LocalResult::Ambiguous(a, b) => Some((a.timestamp(), Some(b.timestamp()))),
            chrono::LocalResult::None => None,
        },
        Err(_) => None,
    }
}

/// The second a local time stands for: the only one, or the earlier of two
/// when the local time is ambiguous.
pub open spec fn spec_earliest_second(mapped: Option<(i64, Option<i64>)>) -> Option<i64> {
    match mapped {
        Some((a, Some(b))) => Some(if b < a { b } else { a }),
        Some((a, None)) => Some(a),
        None => None,
    }
}

/// The second a local time stands for: the only one, or the earlier of two.
pub fn earliest_second(mapped: Option<(i64, Option<i64>)>) -> (r: Option<i64>)
    ensures
        r == spec_earliest_second(mapped),
{
    match mapped {
        Some((a, Some(b))) => Some(if b < a { b } else { a }),
        Some((a, None)) => Some(a),
        None => None,
    }
}

/// What the step estimator must do for an event before the analyzer takes
/// it: forget the run on a room entry or leave (the analyzer forgets the
/// visit too), learn a stage's phase and give its estimate, give its
/// estimate at a lobby marker, or nothing.
#[derive(Debug, Clone, Copy, PartialEq, Eq, Structural)]
pub enum EstimatorStep {
    Reset,
    ObserveStage,
    Estimate,
    Keep,
}

pub open spec fn spec_estimator_step(event: Option<EventView>) -> EstimatorStep {
    match event {
        Some(EventView::EnterEcliptica(_)) | Some(EventView::LeaveRoom(_)) => EstimatorStep::Reset,
        Some(EventView::Stage(_, _)) => EstimatorStep::ObserveStage,
        Some(EventView::Intermission(_)) => EstimatorStep::Estimate,
        _ => EstimatorStep::Keep,
    }
}

/// What the step estimator must do for `line`'s event.
pub fn estimator_step(line: &ParsedLine) -> (r: EstimatorStep)
    ensures
        r == spec_estimator_step(line@.event),
{
    match &line.event {
        Some(ParsedEvent::EnterEcliptica { .. }) | Some(ParsedEvent::LeaveRoom { .. }) => EstimatorStep::Reset,
        Some(ParsedEvent::Stage { .. }) => EstimatorStep::ObserveStage,
        Some(ParsedEvent::Intermission { .. }) => EstimatorStep::Estimate,
        _ => EstimatorStep::Keep,
    }
}

/// Parser for the external log protocol.
pub struct LogParser {}

impl Default for LogParser {
    fn default() -> (r: Self) {
        LogParser {  }
    }
}

impl LogParser {
    /// Parses one log line. The event's second is the line's timestamp in the
    /// machine's local time zone; a line without a readable timestamp is
    /// classified as if no second were available.
    pub fn parse(&self, line: &str) -> (r: ParsedLine)
        ensures
            exists|second: Option<i64>|
                (second is Some ==> timestamp_text(line@) is Some) && r@ == classify(
                    line@,
                    second,
                ),
            timestamp_text(line@) is None ==> r@ == classify(line@, None),
    {
        let s = chars_of(line);
        let second = match timestamp_prefix(&s) {
            Some(text) => {
                let text = string_of(&text);
                earliest_second(local_seconds(text.as_str(), LOG_TIMESTAMP_FORMAT))
            },
            None => None,
        };
        let r = classify_line(line, second);
        assert((second is Some ==> timestamp_text(line@) is Some) && r@ == classify(line@, second));
        r
    }
}

} // verus!
