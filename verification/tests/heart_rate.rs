use ecliptica_data_analyzer::analysis::GameSnapshot;
use ecliptica_data_analyzer::heart_rate::{
    answer_sample, candidate_ports, notice_text, HeartRateRequest, HeartRateResponse,
    HeartRateState, ReceiverNotice, SampleRejection, SupervisorState, BASE_PORT,
    ONLINE_TIMEOUT_MS, PROTOCOL_VERSION, SERVICE_ID,
};
use ecliptica_data_analyzer::i18n::Text;

const NOW: u64 = 9_000_000;

#[test]
fn online_timeout_and_null_sample_follow_metric_contract() {
    let mut shared = HeartRateState::default();
    shared.set_server_running(true);
    shared.record(None, NOW);
    let mut snapshot = GameSnapshot::default();
    shared.apply_to(&mut snapshot, true, NOW);
    assert!(snapshot.has_heart_rate);
    assert_eq!(snapshot.heart_rate, 0);

    shared.last_received_ms = Some(NOW - ONLINE_TIMEOUT_MS - 1);
    shared.apply_to(&mut snapshot, true, NOW);
    assert!(!snapshot.has_heart_rate);
    assert_eq!(snapshot.heart_rate, 0);
}

#[test]
fn disabled_metric_is_unavailable_even_after_a_valid_sample() {
    let mut shared = HeartRateState::default();
    shared.set_server_running(true);
    shared.record(Some(72), NOW);
    let mut snapshot = GameSnapshot::default();
    shared.apply_to(&mut snapshot, false, NOW);
    assert!(!snapshot.has_heart_rate);
}

#[test]
fn protocol_handler_rejects_wrong_version_and_disabled_session() {
    let accepted = answer_sample(
        true,
        true,
        HeartRateRequest { protocol_version: PROTOCOL_VERSION, heart_rate: Some(90) },
    )
    .unwrap();
    assert_eq!(
        accepted,
        HeartRateResponse { service: SERVICE_ID, protocol_version: PROTOCOL_VERSION, accepted: true }
    );
    assert_eq!(accepted.service, "heart-rate-receiver");

    let wrong_version =
        answer_sample(true, true, HeartRateRequest { protocol_version: 2, heart_rate: Some(90) });
    assert_eq!(wrong_version.unwrap_err(), SampleRejection::BadRequest);

    let disabled = answer_sample(
        true,
        false,
        HeartRateRequest { protocol_version: PROTOCOL_VERSION, heart_rate: Some(90) },
    );
    assert_eq!(disabled.unwrap_err(), SampleRejection::ServiceUnavailable);

    let stopping = answer_sample(
        false,
        true,
        HeartRateRequest { protocol_version: PROTOCOL_VERSION, heart_rate: None },
    );
    assert_eq!(stopping.unwrap_err(), SampleRejection::ServiceUnavailable);
}

#[test]
fn a_sample_keeps_the_sender_online_for_exactly_the_timeout() {
    let mut state = HeartRateState::new();
    state.set_server_running(true);
    state.record(Some(88), NOW);
    assert!(state.online_at(NOW));
    assert!(state.online_at(NOW + ONLINE_TIMEOUT_MS - 1));
    assert!(!state.online_at(NOW + ONLINE_TIMEOUT_MS));
    assert!(state.online_at(NOW - 100));
    let mut snapshot = GameSnapshot::default();
    state.apply_to(&mut snapshot, true, NOW + 10);
    assert!(snapshot.has_heart_rate);
    assert_eq!(snapshot.heart_rate, 88);
}

#[test]
fn stopping_the_receiver_forgets_the_sender() {
    let mut state = HeartRateState::new();
    state.set_server_running(true);
    state.record(Some(60), NOW);
    state.set_server_running(false);
    assert_eq!(state.last_received_ms, None);
    assert_eq!(state.value, None);
    assert!(!state.online_at(NOW));
    state.set_server_running(true);
    assert!(!state.online_at(NOW));
}

#[test]
fn supervisor_raises_notices_on_edges_and_waits_once() {
    let mut supervisor = SupervisorState::new();
    assert_eq!(supervisor.tick(false, 5_000), None);
    assert_eq!(supervisor.tick(false, 10_000), Some(ReceiverNotice::Waiting));
    assert_eq!(supervisor.tick(false, 20_000), None);
    assert_eq!(supervisor.tick(true, 21_000), Some(ReceiverNotice::Connected));
    assert_eq!(supervisor.tick(true, 22_000), None);
    assert_eq!(supervisor.tick(false, 23_000), Some(ReceiverNotice::Disconnected));
    assert_eq!(supervisor.tick(false, 40_000), None);
    assert_eq!(notice_text(ReceiverNotice::Waiting), Text::HeartRateWaiting);
}

#[test]
fn receiver_tries_five_consecutive_ports() {
    assert_eq!(candidate_ports(), vec![BASE_PORT, 49671, 49672, 49673, 49674]);
}
