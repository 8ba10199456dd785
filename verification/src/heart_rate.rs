//! The heart-rate receiver's bookkeeping and decisions: which requests it
//! answers, when a sender counts as online, what the live snapshot shows and
//! which notices the supervisor raises.
//!
//! Times are milliseconds on a monotonic clock.
use vstd::prelude::*;

use crate::analysis::{GameSnapshot, SnapshotView};
use crate::i18n::Text;

verus! {

/// The first local port the receiver tries.
pub const BASE_PORT: u16 = 49670;

/// How many consecutive ports the receiver tries.
pub const PORT_COUNT: u16 = 5;

/// The protocol version that senders must speak.
pub const PROTOCOL_VERSION: u16 = 1;

/// The path that samples are posted to.
pub const API_PATH: &'static str = "/api/v1/heart-rate";

/// The service name in every answer.
pub const SERVICE_ID: &'static str = "heart-rate-receiver";

/// A sender is online for this long after its last sample.
pub const ONLINE_TIMEOUT_MS: u64 = 5000;

/// The largest request body the receiver reads.
pub const MAX_REQUEST_BODY_BYTES: usize = 4096;

/// The receiver warns once after listening this long without a sample.
pub const NEGOTIATION_WARNING_AFTER_MS: u64 = 10000;

/// A sample as a sender posts it; `heart_rate` may be null.
#[derive(Debug, Clone, Copy, PartialEq, Eq, Structural)]
pub struct HeartRateRequest {
    pub protocol_version: u16,
    pub heart_rate: Option<u16>,
}

/// The answer to an accepted sample.
#[derive(Debug, Clone, Copy, PartialEq, Eq)]
pub struct HeartRateResponse {
    pub service: &'static str,
    pub protocol_version: u16,
    pub accepted: bool,
}

/// Why a sample was refused.
#[derive(Debug, Clone, Copy, PartialEq, Eq, Structural)]
pub enum SampleRejection {
    /// The receiver is stopping or the metric is switched off.
    ServiceUnavailable,
    /// The sender speaks another protocol version.
    BadRequest,
}

/// The answer to a posted sample: refused while the receiver stops or the
/// metric is off, refused for another protocol version, accepted otherwise.
pub open spec fn spec_sample_answer(accepting: bool, enabled: bool, request: HeartRateRequest) -> Result<
    HeartRateResponse,
    SampleRejection,
> {
    if !accepting || !enabled {
        Err(SampleRejection::ServiceUnavailable)
    } else if request.protocol_version != PROTOCOL_VERSION {
        Err(SampleRejection::BadRequest)
    } else {
        Ok(HeartRateResponse { service: SERVICE_ID, protocol_version: PROTOCOL_VERSION, accepted: true })
    }
}

/// Decides the answer to a posted sample. The sample is to be recorded
/// exactly when the answer is `Ok`.
pub fn answer_sample(accepting: bool, enabled: bool, request: HeartRateRequest) -> (r: Result<
    HeartRateResponse,
    SampleRejection,
>)
    ensures
        r == spec_sample_answer(accepting, enabled, request),
{
    if !accepting || !enabled {
        Err(SampleRejection::ServiceUnavailable)
    } else if request.protocol_version != PROTOCOL_VERSION {
        Err(SampleRejection::BadRequest)
    } else {
        Ok(HeartRateResponse { service: SERVICE_ID, protocol_version: PROTOCOL_VERSION, accepted: true })
    }
}

/// The ports the receiver tries, in order.
pub fn candidate_ports() -> (r: Vec<u16>)
    ensures
        r@.len() == PORT_COUNT,
        forall|i: int| 0 <= i < r@.len() ==> #[trigger] r@[i] == BASE_PORT + i,
{
    let mut ports: Vec<u16> = Vec::new();
    let mut port: u16 = BASE_PORT;
    while port < BASE_PORT + PORT_COUNT
        invariant
            BASE_PORT <= port <= BASE_PORT + PORT_COUNT,
            ports@.len() == port - BASE_PORT,
            forall|i: int| 0 <= i < ports@.len() ==> #[trigger] ports@[i] == BASE_PORT + i,
        decreases BASE_PORT + PORT_COUNT - port,
    {
        ports.push(port);
        port = port + 1;
    }
    ports
}

/// What the receiver knows of its sender.
#[derive(Debug, Clone, Copy, PartialEq, Eq, Structural)]
pub struct HeartRateState {
    pub server_running: bool,
    pub last_received_ms: Option<u64>,
    pub value: Option<u16>,
}

/// `now - then`, or zero when `then` lies ahead.
pub open spec fn elapsed_ms(now: u64, then: u64) -> int {
    if now >= then {
        now - then
    } else {
        0
    }
}

/// Whether the sender counts as online at `now`: the receiver runs and the
/// last sample came less than the timeout ago.
pub open spec fn spec_online_at(s: HeartRateState, now: u64) -> bool {
    s.server_running && match s.last_received_ms {
        Some(t) => elapsed_ms(now, t) < ONLINE_TIMEOUT_MS,
        None => false,
    }
}

/// The state after the receiver starts or stops; stopping forgets the
/// sender.
pub open spec fn with_running(s: HeartRateState, running: bool) -> HeartRateState {
    if running {
        HeartRateState { server_running: true, ..s }
    } else {
        HeartRateState { server_running: false, last_received_ms: None, value: None }
    }
}

/// The state after a sample arrives at `now`.
pub open spec fn recorded(s: HeartRateState, value: Option<u16>, now: u64) -> HeartRateState {
    HeartRateState { last_received_ms: Some(now), value, ..s }
}

/// The snapshot with the metric attached: available only while enabled and
/// online, and zero whenever unavailable or the last sample was null.
pub open spec fn with_heart_rate(s: HeartRateState, snapshot: SnapshotView, enabled: bool, now: u64) -> SnapshotView {
    let online = enabled && spec_online_at(s, now);
    SnapshotView {
        has_heart_rate: online,
        heart_rate: if online {
            match s.value {
                Some(v) => v,
                None => 0,
            }
        } else {
            0
        },
        ..snapshot
    }
}

impl HeartRateState {
    /// A stopped receiver that has heard nothing.
    pub fn new() -> (r: Self)
        ensures
            r == (HeartRateState { server_running: false, last_received_ms: None, value: None }),
    {
        HeartRateState { server_running: false, last_received_ms: None, value: None }
    }

    /// Notes that the receiver started or stopped.
    pub fn set_server_running(&mut self, running: bool)
        ensures
            *final(self) == with_running(*old(self), running),
    {
        self.server_running = running;
        if !running {
            self.last_received_ms = None;
            self.value = None;
        }
    }

    /// Notes a sample that arrived at `now_ms`.
    pub fn record(&mut self, value: Option<u16>, now_ms: u64)
        ensures
            *final(self) == recorded(*old(self), value, now_ms),
    {
        self.last_received_ms = Some(now_ms);
        self.value = value;
    }

    /// Whether the sender counts as online at `now_ms`.
    pub fn online_at(&self, now_ms: u64) -> (r: bool)
        ensures
            r == spec_online_at(*self, now_ms),
    {
        self.server_running && match self.last_received_ms {
            Some(t) => now_ms.saturating_sub(t) < ONLINE_TIMEOUT_MS,
            None => false,
        }
    }

    /// Writes the metric into the live snapshot.
    pub fn apply_to(&self, snapshot: &mut GameSnapshot, enabled: bool, now_ms: u64)
        ensures
            final(snapshot)@ == with_heart_rate(*self, old(snapshot)@, enabled, now_ms),
    {
        let online = enabled && self.online_at(now_ms);
        snapshot.has_heart_rate = online;
        snapshot.heart_rate = if online {
            match self.value {
                Some(v) => v,
                None => 0,
            }
        } else {
            0
        };
    }
}

impl Default for HeartRateState {
    fn default() -> (r: Self)
        ensures
            r == (HeartRateState { server_running: false, last_received_ms: None, value: None }),
    {
        HeartRateState::new()
    }
}

/// A notice that the receiver's supervisor raises.
#[derive(Debug, Clone, Copy, PartialEq, Eq, Structural)]
pub enum ReceiverNotice {
    /// A sender came online.
    Connected,
    /// The sender went quiet.
    Disconnected,
    /// Nothing has arrived for a while since the receiver began listening.
    Waiting,
}

/// The catalog entry shown for a notice.
pub fn notice_text(notice: ReceiverNotice) -> (r: Text)
    ensures
        r == match notice {
            ReceiverNotice::Connected => Text::HeartRateConnected,
            ReceiverNotice::Disconnected => Text::HeartRateDisconnected,
            ReceiverNotice::Waiting => Text::HeartRateWaiting,
        },
{
    match notice {
        ReceiverNotice::Connected => Text::HeartRateConnected,
        ReceiverNotice::Disconnected => Text::HeartRateDisconnected,
        ReceiverNotice::Waiting => Text::HeartRateWaiting,
    }
}

/// What the supervisor remembers between ticks of one listening session.
#[derive(Debug, Clone, Copy, PartialEq, Eq, Structural)]
pub struct SupervisorState {
    pub was_online: bool,
    pub waiting_warning_emitted: bool,
}

/// The notice of one tick: on a rising edge `Connected`, on a falling edge
/// `Disconnected`, and `Waiting` once when still offline after the
/// negotiation delay.
pub open spec fn spec_tick_notice(s: SupervisorState, online: bool, listening_ms: u64) -> Option<ReceiverNotice> {
    if online && !s.was_online {
        Some(ReceiverNotice::Connected)
    } else if !online && s.was_online {
        Some(ReceiverNotice::Disconnected)
    } else if !online && !s.waiting_warning_emitted && listening_ms >= NEGOTIATION_WARNING_AFTER_MS {
        Some(ReceiverNotice::Waiting)
    } else {
        None
    }
}

/// The supervisor's memory after one tick.
pub open spec fn spec_tick_state(s: SupervisorState, online: bool, listening_ms: u64) -> SupervisorState {
    SupervisorState {
        was_online: online,
        waiting_warning_emitted: match spec_tick_notice(s, online, listening_ms) {
            Some(ReceiverNotice::Connected) => false,
            Some(_) => true,
            None => s.waiting_warning_emitted,
        },
    }
}

impl SupervisorState {
    /// A session that has just begun listening.
    pub fn new() -> (r: Self)
        ensures
            r == (SupervisorState { was_online: false, waiting_warning_emitted: false }),
    {
        SupervisorState { was_online: false, waiting_warning_emitted: false }
    }

    /// One tick: `online` is the sender's state now and `listening_ms` how
    /// long the session has listened.
    pub fn tick(&mut self, online: bool, listening_ms: u64) -> (r: Option<ReceiverNotice>)
        ensures
            r == spec_tick_notice(*old(self), online, listening_ms),
            *final(self) == spec_tick_state(*old(self), online, listening_ms),
    {
        let notice = if online && !self.was_online {
            self.waiting_warning_emitted = false;
            Some(ReceiverNotice::Connected)
        } else if !online && self.was_online {
            self.waiting_warning_emitted = true;
            Some(ReceiverNotice::Disconnected)
        } else if !online && !self.waiting_warning_emitted && listening_ms >= NEGOTIATION_WARNING_AFTER_MS {
            self.waiting_warning_emitted = true;
            Some(ReceiverNotice::Waiting)
        } else {
            None
        };
        self.was_online = online;
        notice
    }
}

/// A switched-off metric is never shown, whatever the receiver heard.
pub proof fn law_disabled_metric_is_unavailable(s: HeartRateState, snapshot: SnapshotView, now: u64)
    ensures
        !with_heart_rate(s, snapshot, false, now).has_heart_rate,
        with_heart_rate(s, snapshot, false, now).heart_rate == 0,
{
}

/// A sample keeps a running receiver online for exactly the timeout: from
/// its arrival until just before the timeout has passed.
pub proof fn law_sample_online_window(s: HeartRateState, value: Option<u16>, at: u64, now: u64)
    requires
        s.server_running,
        at <= now,
    ensures
        spec_online_at(recorded(s, value, at), now) <==> now - at < ONLINE_TIMEOUT_MS,
{
}

/// Stopping the receiver forgets the sender: it is offline at every time
/// until the next sample.
pub proof fn law_stopping_forgets_sender(s: HeartRateState, now: u64)
    ensures
        !spec_online_at(with_running(s, false), now),
        with_running(s, false).value is None,
{
}

/// A null sample still counts as online, showing zero.
pub proof fn law_null_sample_shows_zero(s: HeartRateState, snapshot: SnapshotView, at: u64, now: u64)
    requires
        s.server_running,
        at <= now,
        now - at < ONLINE_TIMEOUT_MS,
    ensures
        with_heart_rate(recorded(s, None, at), snapshot, true, now).has_heart_rate,
        with_heart_rate(recorded(s, None, at), snapshot, true, now).heart_rate == 0,
{
}

/// The supervisor never raises the same notice on two ticks in a row
/// without the sender's state changing in between.
pub proof fn law_notices_follow_edges(s: SupervisorState, online: bool, first_ms: u64, second_ms: u64)
    ensures
        spec_tick_notice(spec_tick_state(s, online, first_ms), online, second_ms) is None || (
        spec_tick_notice(s, online, first_ms) is None && !online && spec_tick_notice(
            spec_tick_state(s, online, first_ms),
            online,
            second_ms,
        ) == Some(ReceiverNotice::Waiting)),
{
}

} // verus!
