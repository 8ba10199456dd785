//! The chat-box sender's decisions: which context is broadcast, when a
//! message is due, how pending work coalesces, the local rate limit, what
//! text replaces an empty message, and the message itself.
//!
//! Time is counted in milliseconds on a monotonic clock.
use rosc::{encoder, OscMessage, OscPacket, OscType};
use vstd::prelude::*;

use crate::analysis::{
    duration_text, format_duration, name_key, normalized_name, DataStatus, GameSnapshot, RoundPhase,
    SnapshotView,
};
use crate::config::AppConfig;
use crate::i18n::{catalog, text, Language, Text};
use crate::text::{chars_eq, chars_of, decimal_string, decimal_text, is_blank, string_of, trim, trimmed};

verus! {

/// What the chat box currently speaks about: a combat round or the report
/// of a finished round, each with the round's epoch.
#[derive(Debug, Clone, Copy, PartialEq, Eq, Structural)]
pub enum BroadcastContext {
    Combat(u64),
    RoundReport(u64),
}

/// Regular refreshes may use four slots of the rate window; state changes
/// may use the fifth.
#[derive(Debug, Clone, Copy, PartialEq, Eq, Structural)]
pub enum SendPriority {
    Regular,
    StateChange,
}

/// A request to render the newest snapshot for `context`.
#[derive(Debug, Clone, Copy, PartialEq, Eq, Structural)]
pub struct PendingSend {
    pub context: BroadcastContext,
    pub priority: SendPriority,
}

/// The priority of an edge: a context change, or becoming active again,
/// takes the reserved slot; becoming idle is an ordinary refresh.
pub open spec fn spec_edge_priority(context_changed: bool, wasd_changed: bool, no_wasd_for_10s: bool) -> Option<
    SendPriority,
> {
    if context_changed || (wasd_changed && !no_wasd_for_10s) {
        Some(SendPriority::StateChange)
    } else if wasd_changed {
        Some(SendPriority::Regular)
    } else {
        None
    }
}

/// The priority of an edge: a context change, or becoming active again,
/// takes the reserved slot; becoming idle is an ordinary refresh.
pub fn edge_priority(context_changed: bool, wasd_changed: bool, no_wasd_for_10s: bool) -> (r: Option<
    SendPriority,
>)
    ensures
        r == spec_edge_priority(context_changed, wasd_changed, no_wasd_for_10s),
{
    if context_changed || (wasd_changed && !no_wasd_for_10s) {
        Some(SendPriority::StateChange)
    } else if wasd_changed {
        Some(SendPriority::Regular)
    } else {
        None
    }
}

/// A latest-value queue of capacity one: normal updates coalesce and a
/// state change is never downgraded by a later regular request for the
/// same context.
#[derive(Debug)]
pub struct SendQueue {
    pending: Option<PendingSend>,
}

/// The pending request after enqueueing `context` with `priority`.
pub open spec fn enqueued(pending: Option<PendingSend>, context: BroadcastContext, priority: SendPriority) -> PendingSend {
    match pending {
        Some(p) => if p.context == context && p.priority == SendPriority::StateChange {
            PendingSend { context, priority: SendPriority::StateChange }
        } else {
            PendingSend { context, priority }
        },
        None => PendingSend { context, priority },
    }
}

impl SendQueue {
    pub closed spec fn spec_pending(&self) -> Option<PendingSend> {
        self.pending
    }

    /// An empty queue.
    pub fn new() -> (r: Self)
        ensures
            r.spec_pending() is None,
    {
        SendQueue { pending: None }
    }

    pub fn enqueue(&mut self, context: BroadcastContext, priority: SendPriority)
        ensures
            final(self).spec_pending() == Some(enqueued(old(self).spec_pending(), context, priority)),
    {
        let priority = match self.pending {
            Some(p) => if p.context == context && p.priority == SendPriority::StateChange {
                SendPriority::StateChange
            } else {
                priority
            },
            None => priority,
        };
        self.pending = Some(PendingSend { context, priority });
    }

    pub fn clear(&mut self)
        ensures
            final(self).spec_pending() is None,
    {
        self.pending = None;
    }

    pub fn pending(&self) -> (r: Option<PendingSend>)
        ensures
            r == self.spec_pending(),
    {
        self.pending
    }
}

impl Default for SendQueue {
    fn default() -> (r: Self)
        ensures
            r.spec_pending() is None,
    {
        SendQueue::new()
    }
}

/// Length of the chat box's rate window, in milliseconds.
pub const CHATBOX_RATE_WINDOW_MS: u64 = 5000;
pub const REGULAR_SEND_LIMIT: usize = 4;
pub const ABSOLUTE_SEND_LIMIT: usize = 5;

/// Whether a send at `sent` still counts in the window at `now`.
pub open spec fn in_window(sent: u64, now: u64) -> bool {
    (if now >= sent {
        now - sent
    } else {
        0int
    }) < CHATBOX_RATE_WINDOW_MS
}

/// The sends of `sent` that still count at `now`, in order.
pub open spec fn recent_sends(sent: Seq<u64>, now: u64) -> Seq<u64> {
    sent.filter(|t: u64| in_window(t, now))
}

pub open spec fn send_limit(priority: SendPriority) -> nat {
    match priority {
        SendPriority::Regular => REGULAR_SEND_LIMIT as nat,
        SendPriority::StateChange => ABSOLUTE_SEND_LIMIT as nat,
    }
}

/// A local copy of the chat box's five-per-five-seconds limit; regular
/// traffic keeps the fifth slot free for state transitions.
#[derive(Debug)]
pub struct ChatboxRateLimiter {
    sent_at: Vec<u64>,
}

impl View for ChatboxRateLimiter {
    type V = Seq<u64>;

    closed spec fn view(&self) -> Seq<u64> {
        self.sent_at@
    }
}

impl ChatboxRateLimiter {
    /// A limiter with no recorded send.
    pub fn new() -> (r: Self)
        ensures
            r@ == Seq::<u64>::empty(),
    {
        ChatboxRateLimiter { sent_at: Vec::new() }
    }

    /// Forgets sends outside the window and tells whether one more send of
    /// `priority` fits.
    pub fn can_send(&mut self, priority: SendPriority, now: u64) -> (r: bool)
        ensures
            final(self)@ == recent_sends(old(self)@, now),
            r == (recent_sends(old(self)@, now).len() < send_limit(priority)),
    {
        let ghost s = self.sent_at@;
        let mut kept: Vec<u64> = Vec::new();
        let mut i: usize = 0;
        while i < self.sent_at.len()
            invariant
                i <= s.len(),
                s == self.sent_at@,
                kept@ == s.take(i as int).filter(|t: u64| in_window(t, now)),
            decreases s.len() - i,
        {
            let t = self.sent_at[i];
            proof {
                assert(s.take(i + 1).drop_last() =~= s.take(i as int));
                s.take(i + 1).filter_lemma(|t: u64| in_window(t, now));
                reveal(Seq::filter);
            }
            let age = if now >= t {
                now - t
            } else {
                0
            };
            if age < CHATBOX_RATE_WINDOW_MS {
                kept.push(t);
            }
            i = i + 1;
        }
        assert(s.take(s.len() as int) =~= s);
        self.sent_at = kept;
        let limit = match priority {
            SendPriority::Regular => REGULAR_SEND_LIMIT,
            SendPriority::StateChange => ABSOLUTE_SEND_LIMIT,
        };
        self.sent_at.len() < limit
    }

    /// Records a send at `now`.
    pub fn record_send(&mut self, now: u64)
        ensures
            final(self)@ == old(self)@.push(now),
    {
        self.sent_at.push(now);
    }
}

impl Default for ChatboxRateLimiter {
    fn default() -> (r: Self)
        ensures
            r@ == Seq::<u64>::empty(),
    {
        ChatboxRateLimiter::new()
    }
}

/// One chat-box update: a message, or nothing to send.
#[derive(Debug, Clone, PartialEq, Eq)]
pub enum ChatboxUpdate {
    Message(String),
    SkipEmpty,
}

/// What the chat box may still show: once visible text was sent, only
/// another non-empty message can replace it.
#[derive(Debug)]
pub struct PublishedChatboxState {
    pub remote_may_have_visible_content: bool,
}

/// The placeholder that replaces visible text when the template renders
/// nothing.
pub open spec fn empty_replacement(context: BroadcastContext, language: Language) -> &'static str {
    match context {
        BroadcastContext::Combat(_) => catalog(Text::EmptyCombatReplacement).spec_get(language),
        BroadcastContext::RoundReport(_) => catalog(Text::EmptyReportReplacement).spec_get(language),
    }
}

pub open spec fn blank(s: Seq<char>) -> bool {
    trimmed(s).len() == 0
}

impl PublishedChatboxState {
    /// Nothing was published yet.
    pub fn new() -> (r: Self)
        ensures
            !r.remote_may_have_visible_content,
    {
        PublishedChatboxState { remote_may_have_visible_content: false }
    }

    /// The update for a rendered `message`: the message itself unless it is
    /// blank; for a blank one, the context's placeholder when visible text
    /// may remain, else nothing.
    pub fn next_update(&self, message: String, context: BroadcastContext, language: Language) -> (r:
        ChatboxUpdate)
        ensures
            !blank(message@) ==> r == ChatboxUpdate::Message(message),
            blank(message@) && self.remote_may_have_visible_content ==> (r matches ChatboxUpdate::Message(
                m,
            ) && m@ == empty_replacement(context, language)@),
            blank(message@) && !self.remote_may_have_visible_content ==> r
                == ChatboxUpdate::SkipEmpty,
    {
        let chars = chars_of(message.as_str());
        let t = trim(&chars);
        if t.len() > 0 {
            ChatboxUpdate::Message(message)
        } else if self.remote_may_have_visible_content {
            let key = match context {
                BroadcastContext::Combat(_) => Text::EmptyCombatReplacement,
                BroadcastContext::RoundReport(_) => Text::EmptyReportReplacement,
            };
            let replacement = text(key).get(language);
            ChatboxUpdate::Message(crate::text::owned(replacement))
        } else {
            ChatboxUpdate::SkipEmpty
        }
    }

    /// Notes that `update` was delivered.
    pub fn complete(&mut self, update: &ChatboxUpdate)
        ensures
            final(self).remote_may_have_visible_content == (old(
                self,
            ).remote_may_have_visible_content || update is Message),
    {
        if let ChatboxUpdate::Message(_) = update {
            self.remote_may_have_visible_content = true;
        }
    }
}

impl Default for PublishedChatboxState {
    fn default() -> (r: Self)
        ensures
            !r.remote_may_have_visible_content,
    {
        PublishedChatboxState::new()
    }
}

/// The context of a snapshot: combat while in combat, else the report while
/// one is kept, else nothing to broadcast.
pub open spec fn spec_broadcast_context(s: SnapshotView) -> Option<BroadcastContext> {
    if s.phase == RoundPhase::Combat {
        Some(BroadcastContext::Combat(s.combat_round_epoch))
    } else if s.round_report is Some {
        Some(BroadcastContext::RoundReport(s.combat_round_epoch))
    } else {
        None
    }
}

/// The context of a snapshot: combat while in combat, else the report while
/// one is kept, else nothing to broadcast.
pub fn broadcast_context(snapshot: &GameSnapshot) -> (r: Option<BroadcastContext>)
    ensures
        r == spec_broadcast_context(snapshot@),
{
    if snapshot.phase == RoundPhase::Combat {
        Some(BroadcastContext::Combat(snapshot.combat_round_epoch))
    } else if snapshot.round_report.is_some() {
        Some(BroadcastContext::RoundReport(snapshot.combat_round_epoch))
    } else {
        None
    }
}

/// The report template outside combat while a report is kept; the message
/// template otherwise.
pub fn selected_template<'a>(config: &'a AppConfig, snapshot: &GameSnapshot) -> (r: &'a str)
    ensures
        r@ == (if snapshot.phase != RoundPhase::Combat && snapshot.round_report is Some {
            config.round_report_template@
        } else {
            config.message_template@
        }),
{
    if snapshot.phase == RoundPhase::Combat {
        config.message_template.as_str()
    } else if snapshot.round_report.is_some() {
        config.round_report_template.as_str()
    } else {
        config.message_template.as_str()
    }
}

/// When the next regular message is due, and which configuration revision,
/// context and idle state were last seen.
#[derive(Debug, Clone, Copy, PartialEq, Eq, Structural)]
pub struct SendSchedule {
    pub observed_revision: u64,
    pub next_send: u64,
    pub last_broadcast_context: Option<BroadcastContext>,
    pub last_no_wasd_for_10s: Option<bool>,
}

impl SendSchedule {
    /// A schedule whose first message is due at `now`.
    pub fn new(now: u64) -> (r: Self)
        ensures
            r.observed_revision == 0,
            r.next_send == now,
            r.last_broadcast_context is None,
            r.last_no_wasd_for_10s is None,
    {
        SendSchedule {
            observed_revision: 0,
            next_send: now,
            last_broadcast_context: None,
            last_no_wasd_for_10s: None,
        }
    }

    /// A new configuration revision restarts a complete interval; it never
    /// causes an extra message.
    pub fn observe_config(&mut self, revision: u64, interval: u64, now: u64) -> (changed: bool)
        requires
            now + interval <= u64::MAX,
        ensures
            changed == (revision != old(self).observed_revision),
            final(self).observed_revision == revision,
            final(self).next_send == (if changed {
                (now + interval) as u64
            } else {
                old(self).next_send
            }),
            final(self).last_broadcast_context == old(self).last_broadcast_context,
            final(self).last_no_wasd_for_10s == old(self).last_no_wasd_for_10s,
    {
        if revision != self.observed_revision {
            self.observed_revision = revision;
            self.next_send = now + interval;
            true
        } else {
            false
        }
    }

    pub fn is_due(&self, now: u64) -> (r: bool)
        ensures
            r == (now >= self.next_send),
    {
        now >= self.next_send
    }

    /// A change to a present context is due at once (the reserved slot
    /// carries it).
    pub fn observe_broadcast_context(&mut self, current: Option<BroadcastContext>, now: u64) -> (changed:
        bool)
        ensures
            changed == (old(self).last_broadcast_context != current),
            final(self).last_broadcast_context == current,
            final(self).next_send == (if changed && current is Some {
                now
            } else {
                old(self).next_send
            }),
            final(self).observed_revision == old(self).observed_revision,
            final(self).last_no_wasd_for_10s == old(self).last_no_wasd_for_10s,
    {
        let changed = self.last_broadcast_context != current;
        self.last_broadcast_context = current;
        if changed && current.is_some() {
            self.next_send = now;
        }
        changed
    }

    /// An edge of the idle condition (not its first observation) is due at
    /// once.
    pub fn observe_no_wasd_condition(&mut self, current: bool, now: u64) -> (changed: bool)
        ensures
            changed == (old(self).last_no_wasd_for_10s matches Some(previous) && previous != current),
            final(self).last_no_wasd_for_10s == Some(current),
            final(self).next_send == (if changed {
                now
            } else {
                old(self).next_send
            }),
            final(self).observed_revision == old(self).observed_revision,
            final(self).last_broadcast_context == old(self).last_broadcast_context,
    {
        let changed = match self.last_no_wasd_for_10s {
            Some(previous) => previous != current,
            None => false,
        };
        self.last_no_wasd_for_10s = Some(current);
        if changed {
            self.next_send = now;
        }
        changed
    }

    /// A delivered message starts the next full interval.
    pub fn complete_cycle(&mut self, interval: u64, now: u64)
        requires
            now + interval <= u64::MAX,
        ensures
            final(self).next_send == now + interval,
            final(self).observed_revision == old(self).observed_revision,
            final(self).last_broadcast_context == old(self).last_broadcast_context,
            final(self).last_no_wasd_for_10s == old(self).last_no_wasd_for_10s,
    {
        self.next_send = now + interval;
    }
}

/// Longest message the chat box shows, in characters.
pub const CHATBOX_MAX_CHARS: usize = 144;
/// Line breaks kept; the chat box shows at most nine lines.
pub const CHATBOX_MAX_NEWLINES: usize = 8;

pub open spec fn newlines_in(s: Seq<char>) -> nat
    decreases s.len(),
{
    if s.len() == 0 {
        0
    } else {
        newlines_in(s.drop_last()) + if s.last() == '\n' {
            1nat
        } else {
            0nat
        }
    }
}

/// Where the chat box cuts `s` when scanning from `i` with `newlines` line
/// breaks already kept: at 144 characters, or before a ninth line break.
pub open spec fn chatbox_cut(s: Seq<char>, i: int, newlines: nat) -> int
    decreases s.len() - i,
{
    if i < 0 || i >= s.len() || i >= CHATBOX_MAX_CHARS || (s[i] == '\n' && newlines
        >= CHATBOX_MAX_NEWLINES) {
        i
    } else {
        chatbox_cut(
            s,
            i + 1,
            newlines + if s[i] == '\n' {
                1nat
            } else {
                0nat
            },
        )
    }
}

/// The part of `s` the chat box shows.
pub open spec fn chatbox_limited(s: Seq<char>) -> Seq<char> {
    s.take(chatbox_cut(s, 0, 0))
}

/// The longest prefix of `message` within the chat box's limits: 144
/// characters and 8 line breaks (the line break that would start a tenth
/// line ends the message).
pub fn limit_chatbox(message: &str) -> (r: String)
    ensures
        r@ == chatbox_limited(message@),
{
    let s = chars_of(message);
    let n = s.len();
    let mut out: Vec<char> = Vec::new();
    let mut newlines: usize = 0;
    let mut i: usize = 0;
    while i < n && i < CHATBOX_MAX_CHARS && !(s[i] == '\n' && newlines >= CHATBOX_MAX_NEWLINES)
        invariant
            i <= n,
            n == s@.len(),
            s@ == message@,
            i <= CHATBOX_MAX_CHARS,
            out@ == s@.take(i as int),
            newlines == newlines_in(out@),
            newlines <= CHATBOX_MAX_NEWLINES,
            chatbox_cut(s@, 0, 0) == chatbox_cut(s@, i as int, newlines as nat),
        decreases n - i,
    {
        let c = s[i];
        out.push(c);
        assert(out@.drop_last() =~= s@.take(i as int));
        if c == '\n' {
            newlines = newlines + 1;
        }
        i = i + 1;
        assert(out@ =~= s@.take(i as int));
    }
    assert(chatbox_cut(s@, i as int, newlines as nat) == i);
    string_of(&out)
}

/// Whether the boss is locked on the player named `display_name` (after
/// trimming; an empty name never matches).
pub open spec fn spec_is_self_boss_locked(s: SnapshotView, display_name: Seq<char>) -> bool {
    let name = trimmed(display_name);
    name.len() > 0 && s.boss_active && match s.boss_lock {
        Some(lock) => name_key(lock) == name_key(name),
        None => false,
    }
}

/// Whether the boss is locked on the player named `display_name`.
pub fn is_self_boss_locked(snapshot: &GameSnapshot, display_name: &str) -> (r: bool)
    ensures
        r == spec_is_self_boss_locked(snapshot@, display_name@),
{
    let name_chars = chars_of(display_name);
    let name = trim(&name_chars);
    if name.len() == 0 || !snapshot.boss_active {
        return false;
    }
    match &snapshot.boss_lock {
        Some(lock) => {
            let trimmed_name = string_of(&name);
            let a = normalized_name(lock.as_str());
            let b = normalized_name(trimmed_name.as_str());
            let ca = chars_of(a.as_str());
            let cb = chars_of(b.as_str());
            chars_eq(&ca, &cb)
        },
        None => false,
    }
}

/// Whether a chat-box packet left the application.
#[derive(Debug, Clone, Copy, PartialEq, Eq, Structural)]
pub enum SendOutcome {
    Sent,
    SkippedEmpty,
}

impl SendOutcome {
    pub fn sent_packet(self) -> (r: bool)
        ensures
            r == (self == SendOutcome::Sent),
    {
        match self {
            SendOutcome::Sent => true,
            SendOutcome::SkippedEmpty => false,
        }
    }
}

/// The OSC address of the chat box's input.
pub const CHATBOX_ADDRESS: &'static str = "/chatbox/input";

/// The chat box shows the text at once instead of opening the keyboard.
pub const CHATBOX_SEND_IMMEDIATELY: bool = true;

/// The chat box plays its notification sound.
pub const CHATBOX_NOTIFY: bool = false;

/// OSC framing: `bytes` followed by one to four zero bytes, so that the
/// result ends on a multiple of four.
pub open spec fn osc_padded(bytes: Seq<u8>) -> Seq<u8> {
    bytes + Seq::new((4 - bytes.len() % 4) as nat, |i: int| 0u8)
}

/// The type tag of an OSC boolean: `T` or `F`.
pub open spec fn osc_bool_tag(b: bool) -> u8 {
    if b {
        84u8
    } else {
        70u8
    }
}

/// The OSC bytes of a message to `address` whose arguments are the string
/// `text` and the two booleans `first` and `second`, in that order: the
/// padded UTF-8 address, the padded type tags `,sTF` (or `T`/`F` as the
/// booleans are), then the padded UTF-8 text; booleans carry no data.
pub open spec fn osc_message_bytes(address: Seq<char>, text: Seq<char>, first: bool, second: bool) -> Seq<u8> {
    osc_padded(vstd::utf8::encode_utf8(address)) + osc_padded(
        seq![44u8, 115u8, osc_bool_tag(first), osc_bool_tag(second)],
    ) + osc_padded(vstd::utf8::encode_utf8(text))
}

/// Encodes the OSC message `address` with the arguments `text`, `first`,
/// `second` through `rosc::encoder::encode`. The contract states the
/// encoder's framing as this `rosc` version writes it (`encode_message`,
/// `encode_string_into`, `pad`); writing into a `Vec` never fails.
#[verifier::external_body]
fn encode_osc_message(address: &str, text: &str, first: bool, second: bool) -> (r: Vec<u8>)
    ensures
        r@ == osc_message_bytes(address@, text@, first, second),
{
    let packet = OscPacket::Message(
        OscMessage {
            addr: address.to_owned(),
            args: vec![OscType::String(text.to_owned()), OscType::Bool(first), OscType::Bool(second)],
        },
    );
    encoder::encode(&packet).unwrap_or_default()
}

/// The bytes of a chat-box message with `text`: sent to the chat box's
/// input, shown at once, without the notification sound.
pub open spec fn chatbox_packet_bytes(text: Seq<char>) -> Seq<u8> {
    osc_message_bytes(CHATBOX_ADDRESS@, text, CHATBOX_SEND_IMMEDIATELY, CHATBOX_NOTIFY)
}

/// The packet for an update: none for `SkipEmpty` or a blank message (the
/// final gate never transmits blank text); otherwise the trimmed text.
pub fn chatbox_packet(update: &ChatboxUpdate) -> (r: Option<Vec<u8>>)
    ensures
        match update {
            ChatboxUpdate::SkipEmpty => r is None,
            ChatboxUpdate::Message(m) => if blank(m@) {
                r is None
            } else {
                r matches Some(b) && b@ == chatbox_packet_bytes(trimmed(m@))
            },
        },
{
    match update {
        ChatboxUpdate::SkipEmpty => None,
        ChatboxUpdate::Message(m) => {
            let c = chars_of(m.as_str());
            let t = trim(&c);
            if t.len() == 0 {
                None
            } else {
                let s = string_of(&t);
                Some(encode_osc_message(CHATBOX_ADDRESS, s.as_str(), CHATBOX_SEND_IMMEDIATELY, CHATBOX_NOTIFY))
            }
        },
    }
}


// ---------------------------------------------------------------------------
// Message rendering
// ---------------------------------------------------------------------------

/// A template variable: text, or a flag for `{{#if}}` blocks.
#[derive(Debug, Clone, PartialEq, Eq)]
pub enum TemplateValue {
    Text(String),
    Flag(bool),
}

pub enum ValueView {
    Text(Seq<char>),
    Flag(bool),
}

impl TemplateValue {
    pub open spec fn view(&self) -> ValueView {
        match self {
            TemplateValue::Text(s) => ValueView::Text(s@),
            TemplateValue::Flag(b) => ValueView::Flag(*b),
        }
    }
}

pub open spec fn values_view(v: Seq<(String, TemplateValue)>) -> Seq<(Seq<char>, ValueView)> {
    v.map_values(|p: (String, TemplateValue)| (p.0@, p.1.view()))
}

/// The one-decimal text of each rate of a snapshot (the rate's value
/// rounded as the user interface prints decimals).
#[derive(Debug, Clone, PartialEq, Eq)]
pub struct DecimalTexts {
    pub average_dps: String,
    pub round_average_dps: String,
    pub round_effective_dps: String,
    pub round_burst_10s_dps: String,
    pub report_average_dps: String,
    pub report_effective_dps: String,
    pub report_burst_10s_dps: String,
    pub report_growth_rate: String,
}

/// Why a template produced no message.
#[derive(Debug, Clone, PartialEq, Eq)]
pub enum RenderFailure {
    /// The template does not parse; the parser's explanation.
    Syntax(String),
    /// Rendering failed (for example an unknown variable in strict mode).
    Render(String),
}

pub enum FailureView {
    Syntax(Seq<char>),
    Render(Seq<char>),
}

impl RenderFailure {
    pub open spec fn view(&self) -> FailureView {
        match self {
            RenderFailure::Syntax(s) => FailureView::Syntax(s@),
            RenderFailure::Render(s) => FailureView::Render(s@),
        }
    }
}

/// What the template engine makes of a template and its variables, in
/// strict mode (an unknown variable is an error) or not.
pub uninterp spec fn handlebars_output(template: Seq<char>, values: Seq<(Seq<char>, ValueView)>, strict: bool) -> Result<
    Seq<char>,
    FailureView,
>;

/// Template variables are checked strictly: a variable that is not among
/// the values is an error, not an empty text.
pub const STRICT_TEMPLATES: bool = true;

/// Renders `template` with `handlebars`, in strict mode when `strict`, over
/// a JSON object holding `values`. The output, or the parse or render
/// error's text, is named as a function of the three arguments.
#[verifier::external_body]
pub(crate) fn render_handlebars(template: &str, values: &Vec<(String, TemplateValue)>, strict: bool) -> (r: Result<String, RenderFailure>)
    ensures
        match (r, handlebars_output(template@, values_view(values@), strict)) {
            (Ok(s), Ok(t)) => s@ == t,
            (Err(e), Err(f)) => e.view() == f,
            _ => false,
        },
{
    let mut engine = handlebars::Handlebars::new();
    engine.set_strict_mode(strict);
    if let Err(error) = engine.register_template_string("message", template) {
        return Err(RenderFailure::Syntax(error.to_string()));
    }
    let mut data = serde_json::Map::new();
    for (name, value) in values {
        let json = match value {
            TemplateValue::Text(text) => serde_json::Value::String(text.clone()),
            TemplateValue::Flag(flag) => serde_json::Value::Bool(*flag),
        };
        data.insert(name.clone(), json);
    }
    engine.render("message", &serde_json::Value::Object(data)).map_err(|error| RenderFailure::Render(error.to_string()))
}

pub struct DecimalView {
    pub average_dps: Seq<char>,
    pub round_average_dps: Seq<char>,
    pub round_effective_dps: Seq<char>,
    pub round_burst_10s_dps: Seq<char>,
    pub report_average_dps: Seq<char>,
    pub report_effective_dps: Seq<char>,
    pub report_burst_10s_dps: Seq<char>,
    pub report_growth_rate: Seq<char>,
}

impl DecimalTexts {
    pub open spec fn view(&self) -> DecimalView {
        DecimalView {
            average_dps: self.average_dps@,
            round_average_dps: self.round_average_dps@,
            round_effective_dps: self.round_effective_dps@,
            round_burst_10s_dps: self.round_burst_10s_dps@,
            report_average_dps: self.report_average_dps@,
            report_effective_dps: self.report_effective_dps@,
            report_burst_10s_dps: self.report_burst_10s_dps@,
            report_growth_rate: self.report_growth_rate@,
        }
    }
}

pub open spec fn dash() -> Seq<char> {
    seq!['-']
}

pub open spec fn text_or_dash(known: bool, t: Seq<char>) -> Seq<char> {
    if known {
        t
    } else {
        dash()
    }
}

pub open spec fn or_empty(o: Option<Seq<char>>) -> Seq<char> {
    match o {
        Some(t) => t,
        None => Seq::empty(),
    }
}

/// The live variables of a snapshot.
pub open spec fn live_values(s: SnapshotView, d: DecimalView, self_locked: bool) -> Seq<
    (Seq<char>, ValueView),
> {
    live_texts(s, d) + live_flags(s, self_locked)
}

/// The live texts of a snapshot.
pub open spec fn live_texts(s: SnapshotView, d: DecimalView) -> Seq<(Seq<char>, ValueView)> {
    let has = s.has_damage_data;
    seq![
        ("latest_dps"@, ValueView::Text(text_or_dash(has, decimal_text(s.latest_dps as nat)))),
        ("avg_dps"@, ValueView::Text(text_or_dash(has, d.average_dps))),
        ("round_avg_dps"@, ValueView::Text(text_or_dash(has, d.round_average_dps))),
        ("round_effective_dps"@, ValueView::Text(text_or_dash(has, d.round_effective_dps))),
        ("round_burst_10s"@, ValueView::Text(text_or_dash(s.round_burst_10s_dps is Some, d.round_burst_10s_dps))),
        ("round_damage_taken"@, ValueView::Text(decimal_text(s.round_damage_taken as nat))),
        ("max_dps"@, ValueView::Text(text_or_dash(s.has_max_dps_data, decimal_text(s.max_dps as nat)))),
        ("boss_lock"@, ValueView::Text(or_empty(s.boss_lock))),
        ("boss"@, ValueView::Text(or_empty(s.boss))),
        ("heart_rate"@, ValueView::Text(text_or_dash(s.has_heart_rate, decimal_text(s.heart_rate as nat))))
    ]
}

/// The live flags of a snapshot.
pub open spec fn live_flags(s: SnapshotView, self_locked: bool) -> Seq<(Seq<char>, ValueView)> {
    let has = s.has_damage_data;
    seq![
        ("has_heart_rate"@, ValueView::Flag(s.has_heart_rate)),
        ("has_latest_dps"@, ValueView::Flag(has)),
        ("has_avg_dps"@, ValueView::Flag(has)),
        ("has_round_avg_dps"@, ValueView::Flag(has)),
        ("has_round_effective_dps"@, ValueView::Flag(has)),
        ("has_round_burst_10s"@, ValueView::Flag(s.round_burst_10s_dps is Some)),
        ("has_round_damage_taken"@, ValueView::Flag(has || s.round_damage_taken > 0)),
        ("has_max_dps"@, ValueView::Flag(s.has_max_dps_data)),
        ("is_self_boss_locked"@, ValueView::Flag(self_locked)),
        ("rapid_damage_danger"@, ValueView::Flag(s.rapid_damage_danger)),
        ("no_dps_for_10s"@, ValueView::Flag(s.no_dps_for_10s)),
        ("no_wasd_for_10s"@, ValueView::Flag(s.no_wasd_for_10s))
    ]
}

/// What a report contributes to the variables: presence flags and texts.
pub struct ReportFacts {
    pub present: bool,
    pub has_duration: bool,
    pub has_output: bool,
    pub has_burst: bool,
    pub has_growth: bool,
    pub has_standstill: bool,
    pub duration: Seq<char>,
    pub total: Seq<char>,
    pub max: Seq<char>,
    pub taken: Seq<char>,
    pub standstill: Seq<char>,
}

pub open spec fn report_facts(s: SnapshotView) -> ReportFacts {
    match s.round_report {
        Some(r) => ReportFacts {
            present: true,
            has_duration: r.has_duration_data,
            has_output: r.has_output_data,
            has_burst: r.burst_10s_dps is Some,
            has_growth: r.previous_effective_dps is Some,
            has_standstill: r.has_longest_standstill_data,
            duration: text_or_dash(r.has_duration_data, duration_text(r.duration_seconds as nat)),
            total: decimal_text(r.total_damage as nat),
            max: text_or_dash(r.has_output_data, decimal_text(r.max_dps as nat)),
            taken: decimal_text(r.damage_taken as nat),
            standstill: text_or_dash(
                r.has_longest_standstill_data,
                decimal_text(r.longest_standstill_seconds as nat),
            ),
        },
        None => ReportFacts {
            present: false,
            has_duration: false,
            has_output: false,
            has_burst: false,
            has_growth: false,
            has_standstill: false,
            duration: dash(),
            total: dash(),
            max: dash(),
            taken: dash(),
            standstill: dash(),
        },
    }
}

/// The report variables of a snapshot.
pub open spec fn report_values(s: SnapshotView, d: DecimalView) -> Seq<(Seq<char>, ValueView)> {
    let f = report_facts(s);
    let growth = if f.has_growth {
        d.report_growth_rate
    } else {
        seq!['0']
    };
    seq![
        ("has_round_duration"@, ValueView::Flag(f.has_duration)),
        ("has_round_report_avg_dps"@, ValueView::Flag(f.has_output)),
        ("has_round_max_dps"@, ValueView::Flag(f.has_output)),
        ("has_round_report_effective_dps"@, ValueView::Flag(f.has_output)),
        ("has_round_report_burst_10s"@, ValueView::Flag(f.has_burst)),
        ("has_dps_growth_rate"@, ValueView::Flag(f.has_growth)),
        ("has_round_dps_growth_rate"@, ValueView::Flag(f.has_growth)),
        ("has_round_longest_standstill"@, ValueView::Flag(f.has_standstill)),
        ("has_step_estimate"@, ValueView::Flag(f.present && s.has_step_estimate)),
        ("current_step"@, ValueView::Text(text_or_dash(s.has_step_estimate, decimal_text(s.current_step as nat)))),
        ("until_boss_step"@, ValueView::Text(text_or_dash(s.has_step_estimate, decimal_text(s.until_boss_step as nat)))),
        ("round_duration"@, ValueView::Text(f.duration)),
        ("round_total_damage"@, ValueView::Text(f.total)),
        ("round_report_avg_dps"@, ValueView::Text(text_or_dash(f.has_output, d.report_average_dps))),
        ("round_max_dps"@, ValueView::Text(f.max)),
        ("round_report_effective_dps"@, ValueView::Text(text_or_dash(f.has_output, d.report_effective_dps))),
        ("round_report_burst_10s"@, ValueView::Text(text_or_dash(f.has_burst, d.report_burst_10s_dps))),
        ("dps_growth_rate"@, ValueView::Text(growth)),
        ("round_dps_growth_rate"@, ValueView::Text(growth)),
        ("round_report_damage_taken"@, ValueView::Text(f.taken)),
        ("round_longest_standstill"@, ValueView::Text(f.standstill))
    ]
}

/// The variables available to message and report templates.
pub open spec fn message_values(s: SnapshotView, d: DecimalView, self_locked: bool) -> Seq<
    (Seq<char>, ValueView),
> {
    live_values(s, d, self_locked) + report_values(s, d)
}

/// When the round report has output, the template variable `round_max_dps`
/// is the decimal text of the report's own peak (not the visit peak), in
/// the report variables and in the variables of every template.
pub proof fn law_round_max_dps_is_the_report_peak(s: SnapshotView, d: DecimalView, self_locked: bool)
    requires
        s.round_report matches Some(r) && r.has_output_data,
    ensures
        report_values(s, d).contains(("round_max_dps"@, ValueView::Text(decimal_text(s.round_report->0.max_dps as nat)))),
        message_values(s, d, self_locked).contains(
            ("round_max_dps"@, ValueView::Text(decimal_text(s.round_report->0.max_dps as nat))),
        ),
{
    let v = report_values(s, d);
    let pair = ("round_max_dps"@, ValueView::Text(decimal_text(s.round_report->0.max_dps as nat)));
    assert(v[14] == pair);
    let live = live_values(s, d, self_locked);
    assert(message_values(s, d, self_locked)[live.len() + 14int] == v[14]);
}

fn push_text(v: &mut Vec<(String, TemplateValue)>, name: &str, value: String)
    ensures
        values_view(final(v)@) == values_view(old(v)@).push((name@, ValueView::Text(value@))),
{
    let ghost before = v@;
    v.push((crate::text::owned(name), TemplateValue::Text(value)));
    assert(values_view(v@) =~= values_view(before).push((name@, ValueView::Text(value@))));
}

fn push_flag(v: &mut Vec<(String, TemplateValue)>, name: &str, value: bool)
    ensures
        values_view(final(v)@) == values_view(old(v)@).push((name@, ValueView::Flag(value))),
{
    let ghost before = v@;
    v.push((crate::text::owned(name), TemplateValue::Flag(value)));
    assert(values_view(v@) =~= values_view(before).push((name@, ValueView::Flag(value))));
}

fn dash_string() -> (r: String)
    ensures
        r@ == dash(),
{
    let mut v: Vec<char> = Vec::new();
    v.push('-');
    assert(v@ =~= dash());
    string_of(&v)
}

fn zero_string() -> (r: String)
    ensures
        r@ == seq!['0'],
{
    let mut v: Vec<char> = Vec::new();
    v.push('0');
    assert(v@ =~= seq!['0']);
    string_of(&v)
}

fn known_or_dash(known: bool, t: &String) -> (r: String)
    ensures
        r@ == text_or_dash(known, t@),
{
    if known {
        t.clone()
    } else {
        dash_string()
    }
}

fn opt_text(o: &Option<String>) -> (r: String)
    ensures
        r@ == or_empty(crate::analysis::opt_view(*o)),
{
    match o {
        Some(t) => t.clone(),
        None => string_of(&Vec::new()),
    }
}

fn live_template_texts(snapshot: &GameSnapshot, decimals: &DecimalTexts) -> (r: Vec<(String, TemplateValue)>)
    ensures
        values_view(r@) == live_texts(snapshot@, decimals.view()),
{
    let s = snapshot;
    let has = s.has_damage_data;
    let burst = s.round_burst_10s_dps.is_some();
    let latest = known_or_dash(has, &decimal_string(s.latest_dps));
    let average = known_or_dash(has, &decimals.average_dps);
    let round_average = known_or_dash(has, &decimals.round_average_dps);
    let effective = known_or_dash(has, &decimals.round_effective_dps);
    let burst_text = known_or_dash(burst, &decimals.round_burst_10s_dps);
    let taken = decimal_string(s.round_damage_taken);
    let max = known_or_dash(s.has_max_dps_data, &decimal_string(s.max_dps));
    let lock = opt_text(&s.boss_lock);
    let boss = opt_text(&s.boss);
    let heart = known_or_dash(s.has_heart_rate, &decimal_string(s.heart_rate as u64));
    let mut v: Vec<(String, TemplateValue)> = Vec::new();
    assert(values_view(v@) =~= Seq::empty());
    push_text(&mut v, "latest_dps", latest);
    push_text(&mut v, "avg_dps", average);
    push_text(&mut v, "round_avg_dps", round_average);
    push_text(&mut v, "round_effective_dps", effective);
    push_text(&mut v, "round_burst_10s", burst_text);
    push_text(&mut v, "round_damage_taken", taken);
    push_text(&mut v, "max_dps", max);
    push_text(&mut v, "boss_lock", lock);
    push_text(&mut v, "boss", boss);
    push_text(&mut v, "heart_rate", heart);
    assert(values_view(v@) =~= live_texts(snapshot@, decimals.view()));
    v
}

#[verifier::rlimit(40)]
fn live_template_flags(snapshot: &GameSnapshot, self_locked: bool) -> (r: Vec<(String, TemplateValue)>)
    ensures
        values_view(r@) == live_flags(snapshot@, self_locked),
{
    let s = snapshot;
    let has = s.has_damage_data;
    let mut v: Vec<(String, TemplateValue)> = Vec::new();
    assert(values_view(v@) =~= Seq::empty());
    push_flag(&mut v, "has_heart_rate", s.has_heart_rate);
    push_flag(&mut v, "has_latest_dps", has);
    push_flag(&mut v, "has_avg_dps", has);
    push_flag(&mut v, "has_round_avg_dps", has);
    push_flag(&mut v, "has_round_effective_dps", has);
    push_flag(&mut v, "has_round_burst_10s", s.round_burst_10s_dps.is_some());
    push_flag(&mut v, "has_round_damage_taken", has || s.round_damage_taken > 0);
    push_flag(&mut v, "has_max_dps", s.has_max_dps_data);
    push_flag(&mut v, "is_self_boss_locked", self_locked);
    push_flag(&mut v, "rapid_damage_danger", s.rapid_damage_danger);
    push_flag(&mut v, "no_dps_for_10s", s.no_dps_for_10s);
    push_flag(&mut v, "no_wasd_for_10s", s.no_wasd_for_10s);
    assert(values_view(v@) =~= live_flags(snapshot@, self_locked));
    v
}

fn report_template_values(snapshot: &GameSnapshot, decimals: &DecimalTexts) -> (r: Vec<
    (String, TemplateValue),
>)
    ensures
        values_view(r@) == report_values(snapshot@, decimals.view()),
{
    let s = snapshot;
    let ghost f = report_facts(snapshot@);
    let (present, has_duration, has_output, has_burst, has_growth, has_standstill) = match s.round_report {
        Some(r) => (
            true,
            r.has_duration_data,
            r.has_output_data,
            r.burst_10s_dps.is_some(),
            r.previous_effective_dps.is_some(),
            r.has_longest_standstill_data,
        ),
        None => (false, false, false, false, false, false),
    };
    let (duration, total, max, taken, standstill) = match s.round_report {
        Some(r) => (
            known_or_dash(r.has_duration_data, &format_duration(r.duration_seconds)),
            decimal_string(r.total_damage),
            known_or_dash(r.has_output_data, &decimal_string(r.max_dps)),
            decimal_string(r.damage_taken),
            known_or_dash(r.has_longest_standstill_data, &decimal_string(r.longest_standstill_seconds)),
        ),
        None => (dash_string(), dash_string(), dash_string(), dash_string(), dash_string()),
    };
    assert(duration@ == f.duration && total@ == f.total && max@ == f.max && taken@ == f.taken
        && standstill@ == f.standstill);
    assert(present == f.present && has_duration == f.has_duration && has_output == f.has_output
        && has_burst == f.has_burst && has_growth == f.has_growth && has_standstill
        == f.has_standstill);
    let growth = if has_growth {
        decimals.report_growth_rate.clone()
    } else {
        zero_string()
    };
    let mut v: Vec<(String, TemplateValue)> = Vec::new();
    assert(values_view(v@) =~= Seq::empty());
    push_flag(&mut v, "has_round_duration", has_duration);
    push_flag(&mut v, "has_round_report_avg_dps", has_output);
    push_flag(&mut v, "has_round_max_dps", has_output);
    push_flag(&mut v, "has_round_report_effective_dps", has_output);
    push_flag(&mut v, "has_round_report_burst_10s", has_burst);
    push_flag(&mut v, "has_dps_growth_rate", has_growth);
    push_flag(&mut v, "has_round_dps_growth_rate", has_growth);
    push_flag(&mut v, "has_round_longest_standstill", has_standstill);
    push_flag(&mut v, "has_step_estimate", present && s.has_step_estimate);
    push_text(&mut v, "current_step", known_or_dash(s.has_step_estimate, &decimal_string(s.current_step as u64)));
    push_text(&mut v, "until_boss_step", known_or_dash(s.has_step_estimate, &decimal_string(s.until_boss_step as u64)));
    push_text(&mut v, "round_duration", duration);
    push_text(&mut v, "round_total_damage", total);
    push_text(&mut v, "round_report_avg_dps", known_or_dash(has_output, &decimals.report_average_dps));
    push_text(&mut v, "round_max_dps", max);
    push_text(&mut v, "round_report_effective_dps", known_or_dash(has_output, &decimals.report_effective_dps));
    push_text(&mut v, "round_report_burst_10s", known_or_dash(has_burst, &decimals.report_burst_10s_dps));
    push_text(&mut v, "dps_growth_rate", growth.clone());
    push_text(&mut v, "round_dps_growth_rate", growth);
    push_text(&mut v, "round_report_damage_taken", taken);
    push_text(&mut v, "round_longest_standstill", standstill);
    assert(values_view(v@) =~= report_values(snapshot@, decimals.view()));
    v
}

/// The variables available to message and report templates.
pub fn template_values(snapshot: &GameSnapshot, decimals: &DecimalTexts, display_name: &str) -> (r: Vec<
    (String, TemplateValue),
>)
    ensures
        values_view(r@) == message_values(
            snapshot@,
            decimals.view(),
            spec_is_self_boss_locked(snapshot@, display_name@),
        ),
{
    let self_locked = is_self_boss_locked(snapshot, display_name);
    let mut v = live_template_texts(snapshot, decimals);
    let mut u = live_template_flags(snapshot, self_locked);
    let mut w = report_template_values(snapshot, decimals);
    let ghost a = v@;
    let ghost b = u@;
    let ghost c = w@;
    v.append(&mut u);
    assert(values_view(v@) =~= values_view(a) + values_view(b));
    let ghost ab = v@;
    v.append(&mut w);
    assert(values_view(v@) =~= values_view(ab) + values_view(c));
    v
}

/// The message: the template rendered over the snapshot's variables, the
/// outer white space trimmed, cut to the chat box's limits.
pub open spec fn rendered_message(
    template: Seq<char>,
    s: SnapshotView,
    d: DecimalView,
    display_name: Seq<char>,
) -> Result<Seq<char>, FailureView> {
    match handlebars_output(template, message_values(s, d, spec_is_self_boss_locked(s, display_name)), STRICT_TEMPLATES) {
        Ok(out) => Ok(chatbox_limited(trimmed(out))),
        Err(f) => Err(f),
    }
}

pub open spec fn result_view(r: Result<String, RenderFailure>) -> Result<Seq<char>, FailureView> {
    match r {
        Ok(s) => Ok(s@),
        Err(e) => Err(e.view()),
    }
}

/// Renders `template` for `snapshot`; `display_name` decides whether the
/// boss is locked on the player.
pub fn render_message_with_display_name(
    template: &str,
    snapshot: &GameSnapshot,
    decimals: &DecimalTexts,
    display_name: &str,
) -> (r: Result<String, RenderFailure>)
    ensures
        result_view(r) == rendered_message(template@, snapshot@, decimals.view(), display_name@),
{
    let values = template_values(snapshot, decimals, display_name);
    match render_handlebars(template, &values, STRICT_TEMPLATES) {
        Ok(out) => {
            let c = chars_of(out.as_str());
            let t = trim(&c);
            let s = string_of(&t);
            Ok(limit_chatbox(s.as_str()))
        },
        Err(e) => Err(e),
    }
}

/// Renders `template` for `snapshot` without a player name.
pub fn render_message(template: &str, snapshot: &GameSnapshot, decimals: &DecimalTexts) -> (r: Result<
    String,
    RenderFailure,
>)
    ensures
        result_view(r) == rendered_message(template@, snapshot@, decimals.view(), Seq::empty()),
{
    let empty = string_of(&Vec::new());
    render_message_with_display_name(template, snapshot, decimals, empty.as_str())
}

/// Renders the template that the configuration selects for `snapshot`.
pub fn render_configured_message(config: &AppConfig, snapshot: &GameSnapshot, decimals: &DecimalTexts) -> (r: Result<
    String,
    RenderFailure,
>)
    ensures
        result_view(r) == rendered_message(
            (if snapshot.phase != RoundPhase::Combat && snapshot.round_report is Some {
                config.round_report_template@
            } else {
                config.message_template@
            }),
            snapshot@,
            decimals.view(),
            config.display_name@,
        ),
{
    let template = selected_template(config, snapshot);
    render_message_with_display_name(template, snapshot, decimals, config.display_name.as_str())
}


// ---------------------------------------------------------------------------
// The sender's cycle
// ---------------------------------------------------------------------------

/// What the sender reads at the start of a cycle.
#[derive(Debug, Clone, Copy, PartialEq, Eq)]
pub struct CycleInputs {
    /// Configuration revision and the configured interval.
    pub revision: u64,
    pub interval: u64,
    pub now: u64,
    pub osc_enabled: bool,
    /// The snapshot's status is live, it is inside Ecliptica, its context
    /// and idle flag.
    pub live: bool,
    pub in_ecliptica: bool,
    pub context: Option<BroadcastContext>,
    pub no_wasd_for_10s: bool,
}

/// The decision of a cycle: wait, or render and deliver `pending` now.
#[derive(Debug, Clone, Copy, PartialEq, Eq, Structural)]
pub enum CycleDecision {
    Wait,
    Dispatch(PendingSend),
}

/// The sender's state between cycles.
#[derive(Debug)]
pub struct ChatboxSender {
    pub schedule: SendSchedule,
    pub queue: SendQueue,
    pub rate_limiter: ChatboxRateLimiter,
    pub published: PublishedChatboxState,
    /// The last reported error, so that a repeated one is reported once.
    pub last_error: String,
}

/// The next due time after a cycle's observations.
pub open spec fn cycle_next_send(old_next: u64, config_changed: bool, context_changed: bool, context: Option<
    BroadcastContext,
>, wasd_changed: bool, interval: u64, now: u64) -> u64 {
    let n1 = if config_changed {
        (now + interval) as u64
    } else {
        old_next
    };
    let n2 = if context_changed && context is Some {
        now
    } else {
        n1
    };
    if wasd_changed {
        now
    } else {
        n2
    }
}

impl ChatboxSender {
    /// A sender whose first message is due at `now`.
    pub fn new(now: u64) -> (r: Self)
        ensures
            r.schedule.next_send == now,
            r.schedule.observed_revision == 0,
            r.schedule.last_broadcast_context is None,
            r.schedule.last_no_wasd_for_10s is None,
            r.queue.spec_pending() is None,
            r.rate_limiter@ == Seq::<u64>::empty(),
            !r.published.remote_may_have_visible_content,
            r.last_error@ == Seq::<char>::empty(),
    {
        ChatboxSender {
            schedule: SendSchedule::new(now),
            queue: SendQueue::new(),
            rate_limiter: ChatboxRateLimiter::new(),
            published: PublishedChatboxState::new(),
            last_error: string_of(&Vec::new()),
        }
    }

    /// One cycle: observes configuration, context and idle edges (any edge
    /// discards pending work), queues a state change or a due refresh for an
    /// eligible snapshot, and dispatches it when the rate limit allows.
    pub fn plan(&mut self, inputs: CycleInputs) -> (r: CycleDecision)
        requires
            inputs.now + inputs.interval <= u64::MAX,
        ensures
            ({
                let o = old(self).schedule;
                let config_changed = inputs.revision != o.observed_revision;
                let context_changed = o.last_broadcast_context != inputs.context;
                let wasd_changed = o.last_no_wasd_for_10s matches Some(p) && p != inputs.no_wasd_for_10s;
                let next = cycle_next_send(
                    o.next_send,
                    config_changed,
                    context_changed,
                    inputs.context,
                    wasd_changed,
                    inputs.interval,
                    inputs.now,
                );
                let eligible = inputs.osc_enabled && inputs.live && inputs.in_ecliptica
                    && inputs.context is Some;
                let base = if config_changed || context_changed || wasd_changed {
                    None
                } else {
                    old(self).queue.spec_pending()
                };
                let queued = match spec_edge_priority(context_changed, wasd_changed, inputs.no_wasd_for_10s) {
                    Some(p) => Some(enqueued(base, inputs.context->0, p)),
                    None => if inputs.now >= next {
                        Some(enqueued(base, inputs.context->0, SendPriority::Regular))
                    } else {
                        base
                    },
                };
                &&& final(self).schedule.observed_revision == inputs.revision
                &&& final(self).schedule.last_broadcast_context == inputs.context
                &&& final(self).schedule.last_no_wasd_for_10s == Some(inputs.no_wasd_for_10s)
                &&& final(self).schedule.next_send == next
                &&& final(self).published.remote_may_have_visible_content == old(
                    self,
                ).published.remote_may_have_visible_content
                &&& final(self).last_error == old(self).last_error
                &&& if !eligible {
                    &&& final(self).queue.spec_pending() is None
                    &&& final(self).rate_limiter@ == old(self).rate_limiter@
                    &&& r == CycleDecision::Wait
                } else {
                    &&& final(self).queue.spec_pending() == queued
                    &&& match queued {
                        Some(p) => {
                            &&& final(self).rate_limiter@ == recent_sends(
                                old(self).rate_limiter@,
                                inputs.now,
                            )
                            &&& r == if recent_sends(old(self).rate_limiter@, inputs.now).len()
                                < send_limit(p.priority) {
                                CycleDecision::Dispatch(p)
                            } else {
                                CycleDecision::Wait
                            }
                        },
                        None => {
                            &&& final(self).rate_limiter@ == old(self).rate_limiter@
                            &&& r == CycleDecision::Wait
                        },
                    }
                }
            }),
    {
        let config_changed = self.schedule.observe_config(inputs.revision, inputs.interval, inputs.now);
        let context_changed = self.schedule.observe_broadcast_context(inputs.context, inputs.now);
        let wasd_changed = self.schedule.observe_no_wasd_condition(inputs.no_wasd_for_10s, inputs.now);
        if config_changed || context_changed || wasd_changed {
            self.queue.clear();
        }
        let context = match inputs.context {
            Some(c) => c,
            None => {
                self.queue.clear();
                return CycleDecision::Wait;
            },
        };
        if !(inputs.osc_enabled && inputs.live && inputs.in_ecliptica) {
            self.queue.clear();
            return CycleDecision::Wait;
        }
        match edge_priority(context_changed, wasd_changed, inputs.no_wasd_for_10s) {
            Some(priority) => self.queue.enqueue(context, priority),
            None => {
                if self.schedule.is_due(inputs.now) {
                    self.queue.enqueue(context, SendPriority::Regular);
                }
            },
        }
        match self.queue.pending() {
            Some(pending) => {
                if self.rate_limiter.can_send(pending.priority, inputs.now) {
                    CycleDecision::Dispatch(pending)
                } else {
                    CycleDecision::Wait
                }
            },
            None => CycleDecision::Wait,
        }
    }

    /// Before rendering, the dispatched request must still describe the
    /// newest state: same revision, same context, enabled, live and inside
    /// Ecliptica. Otherwise it is discarded.
    pub fn confirm(
        &mut self,
        pending: PendingSend,
        planned_revision: u64,
        latest_revision: u64,
        latest_context: Option<BroadcastContext>,
        latest_enabled: bool,
        latest_live: bool,
        latest_in_ecliptica: bool,
    ) -> (r: bool)
        ensures
            r == (latest_revision == planned_revision && latest_context == Some(pending.context)
                && latest_enabled && latest_live && latest_in_ecliptica),
            !r ==> final(self).queue.spec_pending() is None,
            r ==> final(self).queue.spec_pending() == old(self).queue.spec_pending(),
            final(self).schedule == old(self).schedule,
            final(self).rate_limiter@ == old(self).rate_limiter@,
            final(self).published.remote_may_have_visible_content == old(
                self,
            ).published.remote_may_have_visible_content,
            final(self).last_error == old(self).last_error,
    {
        let current = match latest_context {
            Some(c) => c == pending.context,
            None => false,
        };
        let ok = latest_revision == planned_revision && current && latest_enabled && latest_live
            && latest_in_ecliptica;
        if !ok {
            self.queue.clear();
        }
        ok
    }

    /// After delivering `update`: the visible-content state is updated, a
    /// sent packet takes a rate slot at `now`, the queue empties, the next
    /// full interval starts and the error memory is cleared.
    pub fn delivered(&mut self, update: &ChatboxUpdate, outcome: SendOutcome, now: u64, interval: u64)
        requires
            now + interval <= u64::MAX,
        ensures
            final(self).published.remote_may_have_visible_content == (old(
                self,
            ).published.remote_may_have_visible_content || update is Message),
            final(self).rate_limiter@ == if outcome == SendOutcome::Sent {
                old(self).rate_limiter@.push(now)
            } else {
                old(self).rate_limiter@
            },
            final(self).queue.spec_pending() is None,
            final(self).schedule.next_send == now + interval,
            final(self).schedule.observed_revision == old(self).schedule.observed_revision,
            final(self).schedule.last_broadcast_context == old(self).schedule.last_broadcast_context,
            final(self).schedule.last_no_wasd_for_10s == old(self).schedule.last_no_wasd_for_10s,
            final(self).last_error@ == Seq::<char>::empty(),
    {
        self.published.complete(update);
        if outcome.sent_packet() {
            self.rate_limiter.record_send(now);
        }
        self.queue.clear();
        self.schedule.complete_cycle(interval, now);
        self.last_error = string_of(&Vec::new());
    }

    /// A failed delivery keeps the pending request for the next cycle; the
    /// error is returned for reporting unless it repeats the last one.
    pub fn failed(&mut self, message: String) -> (r: Option<String>)
        ensures
            final(self).last_error@ == message@,
            r matches Some(m) ==> m@ == message@,
            (r is Some) == (message@ != old(self).last_error@),
            final(self).queue.spec_pending() == old(self).queue.spec_pending(),
            final(self).schedule == old(self).schedule,
            final(self).rate_limiter@ == old(self).rate_limiter@,
            final(self).published.remote_may_have_visible_content == old(
                self,
            ).published.remote_may_have_visible_content,
    {
        let a = chars_of(message.as_str());
        let b = chars_of(self.last_error.as_str());
        if chars_eq(&a, &b) {
            self.last_error = message;
            None
        } else {
            self.last_error = message.clone();
            Some(message)
        }
    }
}


// ---------------------------------------------------------------------------
// Laws of the sender
// ---------------------------------------------------------------------------

/// A state change queued for a context is never downgraded by a later
/// regular request for the same context.
pub proof fn law_state_change_is_never_downgraded(context: BroadcastContext)
    ensures
        enqueued(
            Some(PendingSend { context, priority: SendPriority::StateChange }),
            context,
            SendPriority::Regular,
        ).priority == SendPriority::StateChange,
{
}

/// Regular traffic leaves the fifth slot of the window free: a regular send
/// that the limiter admits leaves at most four sends in the window.
pub proof fn law_regular_sends_keep_the_reserved_slot(sent: Seq<u64>, now: u64)
    requires
        recent_sends(sent, now).len() < send_limit(SendPriority::Regular),
    ensures
        recent_sends(recent_sends(sent, now).push(now), now).len() <= REGULAR_SEND_LIMIT,
{
    let r = recent_sends(sent, now);
    assert(recent_sends(r.push(now), now) =~= recent_sends(r, now).push(now)) by {
        reveal(Seq::filter);
        assert(r.push(now).drop_last() =~= r);
    }
    assert(recent_sends(r, now).len() <= r.len()) by {
        r.filter_lemma(|t: u64| in_window(t, now));
        lemma_filter_len(r, |t: u64| in_window(t, now));
    }
}

/// No admitted send breaks the chat box's own limit: whatever its priority,
/// a send the limiter admits leaves at most five sends in the window.
pub proof fn law_admitted_sends_respect_the_hard_limit(sent: Seq<u64>, now: u64, priority: SendPriority)
    requires
        recent_sends(sent, now).len() < send_limit(priority),
    ensures
        recent_sends(recent_sends(sent, now).push(now), now).len() <= ABSOLUTE_SEND_LIMIT,
{
    let r = recent_sends(sent, now);
    assert(recent_sends(r.push(now), now) =~= recent_sends(r, now).push(now)) by {
        reveal(Seq::filter);
        assert(r.push(now).drop_last() =~= r);
    }
    assert(recent_sends(r, now).len() <= r.len()) by {
        r.filter_lemma(|t: u64| in_window(t, now));
        lemma_filter_len(r, |t: u64| in_window(t, now));
    }
}

/// An edge of the idle flag, or a switch to a new broadcast context, is due
/// at once, whatever was scheduled before and even right after a saved
/// configuration.
pub proof fn law_edges_are_due_at_once(
    old_next: u64,
    config_changed: bool,
    context: BroadcastContext,
    wasd_changed: bool,
    interval: u64,
    now: u64,
)
    ensures
        cycle_next_send(old_next, config_changed, true, Some(context), wasd_changed, interval, now) == now,
        cycle_next_send(old_next, config_changed, false, Some(context), true, interval, now) == now,
{
}

/// Times that never go backwards.
pub open spec fn nondecreasing(s: Seq<u64>) -> bool {
    forall|i: int, j: int| 0 <= i <= j < s.len() ==> s[i] <= s[j]
}

/// A run of sends that the limiter admitted: each send found fewer than
/// five earlier sends in its window.
pub open spec fn admitted_run(sends: Seq<u64>) -> bool {
    forall|k: int| 0 <= k < sends.len() ==> #[trigger] recent_sends(sends.take(k), sends[k]).len() < ABSOLUTE_SEND_LIMIT
}

proof fn lemma_filter_weaker(s: Seq<u64>, p: spec_fn(u64) -> bool, q: spec_fn(u64) -> bool)
    requires
        forall|i: int| 0 <= i < s.len() && p(s[i]) ==> q(s[i]),
    ensures
        s.filter(p).len() <= s.filter(q).len(),
    decreases s.len(),
{
    reveal(Seq::filter);
    if s.len() > 0 {
        let d = s.drop_last();
        assert forall|i: int| 0 <= i < d.len() && p(d[i]) implies q(d[i]) by {
            assert(d[i] == s[i]);
        }
        lemma_filter_weaker(d, p, q);
    }
}

proof fn lemma_filter_same(s: Seq<u64>, p: spec_fn(u64) -> bool, q: spec_fn(u64) -> bool)
    requires
        forall|i: int| 0 <= i < s.len() && q(s[i]) ==> p(s[i]),
    ensures
        s.filter(p).filter(q) == s.filter(q),
    decreases s.len(),
{
    reveal(Seq::filter);
    if s.len() > 0 {
        let d = s.drop_last();
        assert forall|i: int| 0 <= i < d.len() && q(d[i]) implies p(d[i]) by {
            assert(d[i] == s[i]);
        }
        lemma_filter_same(d, p, q);
        let l = s.last();
        assert(s.filter(p) == if p(l) { d.filter(p).push(l) } else { d.filter(p) });
        assert(s.filter(q) == if q(l) { d.filter(q).push(l) } else { d.filter(q) });
        if p(l) {
            let x = d.filter(p).push(l);
            assert(x.drop_last() =~= d.filter(p));
            assert(x.last() == l);
            assert(x.filter(q) == if q(l) { x.drop_last().filter(q).push(l) } else { x.drop_last().filter(q) });
        } else {
            assert(!q(l));
        }
    }
}

/// Forgetting old sends at one time never changes the window at a later
/// time: what the limiter keeps still counts every send that matters.
pub proof fn law_forgetting_keeps_later_windows(sends: Seq<u64>, earlier: u64, later: u64)
    requires
        earlier <= later,
        forall|i: int| 0 <= i < sends.len() ==> sends[i] <= earlier,
    ensures
        recent_sends(recent_sends(sends, earlier), later) == recent_sends(sends, later),
{
    lemma_filter_same(sends, |t: u64| in_window(t, earlier), |t: u64| in_window(t, later));
}

/// Over a whole run of admitted sends, no five-second window ever holds more
/// than five sends: at any time `now` after the first `n` sends, at most five
/// of them count. Regular traffic, admitted only below four, leaves at most
/// three before a regular send and always leaves room for a state change.
pub proof fn law_window_limit_holds_over_a_run(sends: Seq<u64>, n: int, now: u64)
    requires
        nondecreasing(sends),
        admitted_run(sends),
        0 <= n <= sends.len(),
        n > 0 ==> sends[n - 1] <= now,
    ensures
        recent_sends(sends.take(n), now).len() <= ABSOLUTE_SEND_LIMIT,
        recent_sends(sends.take(n), now).len() < send_limit(SendPriority::Regular) ==> recent_sends(
            sends.take(n),
            now,
        ).len() <= 3 && recent_sends(sends.take(n), now).len() < send_limit(SendPriority::StateChange),
{
    if n > 0 {
        let before = sends.take(n - 1);
        let u = sends[n - 1];
        assert(sends.take(n).drop_last() =~= before);
        assert(sends.take(n).last() == u);
        assert(recent_sends(sends.take(n), now).len() <= recent_sends(before, now).len() + 1) by {
            reveal(Seq::filter);
        }
        assert forall|i: int| 0 <= i < before.len() && in_window(before[i], now) implies in_window(
            before[i],
            u,
        ) by {
            assert(before[i] == sends[i]);
        }
        lemma_filter_weaker(before, |t: u64| in_window(t, now), |t: u64| in_window(t, u));
        assert(recent_sends(before, u).len() < ABSOLUTE_SEND_LIMIT);
    }
}

/// One use of the limiter: an admission check of a priority at a time, or
/// a send recorded at a time.
pub enum LimiterOp {
    Check(SendPriority, u64),
    Record(u64),
}

pub open spec fn op_time(op: LimiterOp) -> u64 {
    match op {
        LimiterOp::Check(_, t) => t,
        LimiterOp::Record(t) => t,
    }
}

/// The sends a limiter holds after the operations, as `can_send` and
/// `record_send` leave them.
#[verifier::opaque]
pub open spec fn limiter_after(ops: Seq<LimiterOp>) -> Seq<u64>
    decreases ops.len(),
{
    if ops.len() == 0 {
        Seq::empty()
    } else {
        let v = limiter_after(ops.drop_last());
        match ops.last() {
            LimiterOp::Check(_, t) => recent_sends(v, t),
            LimiterOp::Record(t) => v.push(t),
        }
    }
}

/// Every send recorded by the operations, in order.
#[verifier::opaque]
pub open spec fn recorded(ops: Seq<LimiterOp>) -> Seq<u64>
    decreases ops.len(),
{
    if ops.len() == 0 {
        Seq::empty()
    } else {
        let r = recorded(ops.drop_last());
        match ops.last() {
            LimiterOp::Record(t) => r.push(t),
            LimiterOp::Check(_, _) => r,
        }
    }
}

/// The operations' times never go back.
pub open spec fn ops_ordered(ops: Seq<LimiterOp>) -> bool {
    forall|i: int, j: int| 0 <= i <= j < ops.len() ==> op_time(#[trigger] ops[i]) <= op_time(#[trigger] ops[j])
}

/// Whether the operation at `k` records a send.
pub open spec fn record_at(ops: Seq<LimiterOp>, k: int) -> bool {
    ops[k] is Record
}

/// Each recorded send comes right after a check at the same time that
/// admitted it.
pub open spec fn sends_checked(ops: Seq<LimiterOp>) -> bool {
    forall|k: int|
        0 <= k < ops.len() && #[trigger] record_at(ops, k) ==> k > 0 && (ops[k - 1] matches LimiterOp::Check(p, t)
            && t == op_time(ops[k]) && recent_sends(limiter_after(ops.take(k - 1)), t).len() < send_limit(p))
}

proof fn lemma_filter_bounded(s: Seq<u64>, p: spec_fn(u64) -> bool, b: u64)
    requires
        forall|i: int| 0 <= i < s.len() ==> s[i] <= b,
    ensures
        forall|i: int| 0 <= i < s.filter(p).len() ==> #[trigger] s.filter(p)[i] <= b,
    decreases s.len(),
{
    reveal(Seq::filter);
    if s.len() > 0 {
        let d = s.drop_last();
        assert forall|i: int| 0 <= i < d.len() implies d[i] <= b by {
            assert(d[i] == s[i]);
        }
        lemma_filter_bounded(d, p, b);
        assert(s.filter(p) == if p(s.last()) {
            d.filter(p).push(s.last())
        } else {
            d.filter(p)
        });
        assert(s.last() == s[s.len() - 1]);
    }
}

proof fn lemma_push_recent(s: Seq<u64>, u: u64, now: u64)
    ensures
        recent_sends(s.push(u), now) == if in_window(u, now) {
            recent_sends(s, now).push(u)
        } else {
            recent_sends(s, now)
        },
{
    reveal(Seq::filter);
    assert(s.push(u).drop_last() =~= s);
}

proof fn lemma_limiter_sees_recent_sends(ops: Seq<LimiterOp>, now: u64)
    requires
        ops_ordered(ops),
        ops.len() > 0 ==> op_time(ops.last()) <= now,
    ensures
        recent_sends(limiter_after(ops), now) == recent_sends(recorded(ops), now),
        ops.len() > 0 ==> forall|i: int| 0 <= i < limiter_after(ops).len() ==> #[trigger] limiter_after(ops)[i] <= op_time(ops.last()),
        ops.len() > 0 ==> forall|i: int| 0 <= i < recorded(ops).len() ==> #[trigger] recorded(ops)[i] <= op_time(ops.last()),
        nondecreasing(recorded(ops)),
        ops.len() == 0 ==> recorded(ops).len() == 0,
    decreases ops.len(),
{
    reveal(limiter_after);
    reveal(recorded);
    if ops.len() > 0 {
        let p = ops.drop_last();
        let t = op_time(ops.last());
        assert forall|i: int, j: int| 0 <= i <= j < p.len() implies op_time(#[trigger] p[i]) <= op_time(#[trigger] p[j]) by {
            assert(p[i] == ops[i] && p[j] == ops[j]);
        }
        if p.len() > 0 {
            assert(p.last() == ops[ops.len() - 2]);
            assert(ops.last() == ops[ops.len() - 1]);
            assert(op_time(p.last()) <= t);
        }
        lemma_limiter_sees_recent_sends(p, now);
        let v = limiter_after(p);
        let r = recorded(p);
        match ops.last() {
            LimiterOp::Record(u) => {
                lemma_push_recent(v, u, now);
                lemma_push_recent(r, u, now);
            },
            LimiterOp::Check(_, u) => {
                law_forgetting_keeps_later_windows(v, u, now);
                lemma_filter_bounded(v, |x: u64| in_window(x, u), t);
            },
        }
    }
}

proof fn lemma_checked_sends_are_admitted(ops: Seq<LimiterOp>)
    requires
        ops_ordered(ops),
        sends_checked(ops),
    ensures
        admitted_run(recorded(ops)),
    decreases ops.len(),
{
    if ops.len() == 0 {
        assert(recorded(ops) =~= Seq::<u64>::empty()) by {
            reveal(recorded);
        }
    }
    if ops.len() > 0 {
        let n = ops.len() as int;
        let p = ops.drop_last();
        assert forall|i: int, j: int| 0 <= i <= j < p.len() implies op_time(#[trigger] p[i]) <= op_time(#[trigger] p[j]) by {
            assert(p[i] == ops[i] && p[j] == ops[j]);
        }
        assert forall|k: int| 0 <= k < p.len() && #[trigger] record_at(p, k) implies k > 0 && (p[k - 1] matches LimiterOp::Check(q, t)
            && t == op_time(p[k]) && recent_sends(limiter_after(p.take(k - 1)), t).len() < send_limit(q)) by {
            assert(p[k] == ops[k]);
            assert(record_at(ops, k));
            assert(p[k - 1] == ops[k - 1]);
            assert(p.take(k - 1) =~= ops.take(k - 1));
        }
        lemma_checked_sends_are_admitted(p);
        let r = recorded(p);
        match ops.last() {
            LimiterOp::Check(_, _) => {
                assert(recorded(ops) == r) by {
                    reveal(recorded);
                }
                assert(admitted_run(recorded(ops)));
            },
            LimiterOp::Record(u) => {
                assert(ops[n - 1] == ops.last());
                assert(record_at(ops, n - 1));
                let q = ops.take(n - 2);
                let c = ops[n - 2];
                assert(p =~= q.push(c));
                assert(p.drop_last() =~= q);
                assert(recorded(ops) == r.push(u)) by {
                    reveal(recorded);
                }
                assert(r == recorded(q)) by {
                    reveal(recorded);
                }
                assert forall|i: int, j: int| 0 <= i <= j < q.len() implies op_time(#[trigger] q[i]) <= op_time(#[trigger] q[j]) by {
                    assert(q[i] == ops[i] && q[j] == ops[j]);
                }
                assert(q.len() > 0 ==> q.last() == ops[n - 3] && op_time(ops[n - 3]) <= op_time(ops[n - 1]));
                lemma_limiter_sees_recent_sends(q, u);
                assert(n >= 2);
                assert(ops.take(n - 2) == q);
                assert(recent_sends(r, u).len() < ABSOLUTE_SEND_LIMIT);
                let s = r.push(u);
                assert forall|k: int| 0 <= k < s.len() implies #[trigger] recent_sends(s.take(k), s[k]).len() < ABSOLUTE_SEND_LIMIT by {
                    if k < r.len() {
                        assert(s.take(k) =~= r.take(k));
                        assert(s[k] == r[k]);
                    } else {
                        assert(s.take(k) =~= r);
                    }
                }
                assert(admitted_run(s));
                assert(admitted_run(recorded(ops)));
            },
        }
    }
}

/// A limiter driven with times that never go back, where each send is
/// recorded right after a check at the same time that admitted it, never
/// lets any five-second window hold more than five of all the sends it
/// recorded. Its own pruned list counts exactly those sends; whenever it
/// admits regular traffic at most three of them are in the window, and it
/// then admits a state change too.
pub proof fn law_limiter_keeps_window_limit(ops: Seq<LimiterOp>, now: u64)
    requires
        ops_ordered(ops),
        sends_checked(ops),
        ops.len() > 0 ==> op_time(ops.last()) <= now,
    ensures
        recent_sends(limiter_after(ops), now) == recent_sends(recorded(ops), now),
        recent_sends(recorded(ops), now).len() <= ABSOLUTE_SEND_LIMIT,
        recent_sends(limiter_after(ops), now).len() < send_limit(SendPriority::Regular) ==> recent_sends(
            limiter_after(ops),
            now,
        ).len() <= 3 && recent_sends(limiter_after(ops), now).len() < send_limit(SendPriority::StateChange),
{
    lemma_limiter_sees_recent_sends(ops, now);
    lemma_checked_sends_are_admitted(ops);
    let s = recorded(ops);
    assert(s.take(s.len() as int) =~= s);
    if s.len() > 0 {
        assert(recorded(ops)[s.len() - 1] <= op_time(ops.last()));
    }
    law_window_limit_holds_over_a_run(s, s.len() as int, now);
}

proof fn lemma_filter_len(s: Seq<u64>, p: spec_fn(u64) -> bool)
    ensures
        s.filter(p).len() <= s.len(),
    decreases s.len(),
{
    reveal(Seq::filter);
    if s.len() > 0 {
        lemma_filter_len(s.drop_last(), p);
    }
}

/// Saving the configuration never creates an extra packet: right after a
/// new revision nothing is due before a whole interval has passed.
pub proof fn law_config_change_waits_a_full_interval(old_next: u64, interval: u64, now: u64, t: u64)
    requires
        now + interval <= u64::MAX,
        now <= t < now + interval,
    ensures
        !(t >= cycle_next_send(old_next, true, false, None, false, interval, now)),
{
}

/// The chat box limits hold of every message: at most 144 characters and at
/// most eight line breaks, taken from the start of the text.
pub proof fn law_chatbox_limits(s: Seq<char>)
    ensures
        chatbox_limited(s).len() <= CHATBOX_MAX_CHARS,
        newlines_in(chatbox_limited(s)) <= CHATBOX_MAX_NEWLINES,
        chatbox_limited(s) == s.take(chatbox_limited(s).len() as int),
{
    lemma_chatbox_cut(s, 0, 0);
}

proof fn lemma_chatbox_cut(s: Seq<char>, i: int, newlines: nat)
    requires
        0 <= i <= s.len(),
        i <= CHATBOX_MAX_CHARS,
        newlines == newlines_in(s.take(i)),
        newlines <= CHATBOX_MAX_NEWLINES,
    ensures
        i <= chatbox_cut(s, i, newlines) <= s.len(),
        chatbox_cut(s, i, newlines) <= CHATBOX_MAX_CHARS,
        newlines_in(s.take(chatbox_cut(s, i, newlines))) <= CHATBOX_MAX_NEWLINES,
    decreases s.len() - i,
{
    if i >= s.len() || i >= CHATBOX_MAX_CHARS || (s[i] == '\n' && newlines >= CHATBOX_MAX_NEWLINES) {
    } else {
        assert(s.take(i + 1).drop_last() =~= s.take(i));
        lemma_chatbox_cut(
            s,
            i + 1,
            newlines + if s[i] == '\n' {
                1nat
            } else {
                0nat
            },
        );
    }
}

} // verus!
