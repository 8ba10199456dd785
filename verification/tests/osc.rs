use ecliptica_data_analyzer::config::SendInterval;
use ecliptica_data_analyzer::i18n::Language;
use ecliptica_data_analyzer::osc::{
    edge_priority, limit_chatbox, BroadcastContext, ChatboxRateLimiter, ChatboxUpdate,
    PublishedChatboxState, SendPriority, SendQueue, SendSchedule, CHATBOX_RATE_WINDOW_MS,
};

const START: u64 = 1_000_000;

#[test]
fn truncates_at_unicode_char_and_line_limits() {
    assert_eq!(limit_chatbox(&"伤".repeat(200)).chars().count(), 144);
    assert_eq!(
        limit_chatbox("1\n2\n3\n4\n5\n6\n7\n8\n9\n10").lines().count(),
        9
    );
}

#[test]
fn empty_template_without_any_previously_published_text_sends_nothing() {
    let published = PublishedChatboxState::default();
    assert_eq!(
        published.next_update(String::new(), BroadcastContext::Combat(1), Language::Chinese),
        ChatboxUpdate::SkipEmpty
    );
}

#[test]
fn config_save_restarts_a_full_send_interval() {
    let start = START;
    let mut schedule = SendSchedule::new(start);
    assert!(schedule.is_due(start));
    schedule.complete_cycle(3000, start);

    let save_time = start + 2000;
    schedule.observe_config(1, 1000, save_time);
    assert!(!schedule.is_due(save_time));
    assert!(!schedule.is_due(save_time + 999));
    assert!(schedule.is_due(save_time + 1000));
}

#[test]
fn one_point_five_second_interval_is_not_rounded_to_whole_seconds() {
    let start = START;
    let mut schedule = SendSchedule::new(start);
    schedule.complete_cycle(SendInterval::OnePointFive.duration(), start);

    assert!(!schedule.is_due(start + 1_499));
    assert!(schedule.is_due(start + 1_500));
}

#[test]
fn wasd_condition_edges_replace_pending_work_immediately() {
    let start = START;
    let mut schedule = SendSchedule::new(start);
    schedule.complete_cycle(3000, start);
    schedule.observe_no_wasd_condition(true, start);
    assert!(!schedule.is_due(start + 999));

    let key_press = start + 250;
    assert!(schedule.observe_no_wasd_condition(false, key_press));
    assert!(schedule.is_due(key_press));
}

#[test]
fn phase_switch_is_due_immediately_for_the_reserved_slot() {
    let start = START;
    let mut schedule = SendSchedule::new(start);
    schedule.observe_broadcast_context(Some(BroadcastContext::RoundReport(4)), start);
    schedule.complete_cycle(3000, start);

    let round_start = start + 250;
    assert!(schedule.observe_broadcast_context(Some(BroadcastContext::Combat(5)), round_start));
    assert!(schedule.is_due(round_start));
}

#[test]
fn context_switch_clears_the_queued_report_instead_of_sending_it_later() {
    let mut queue = SendQueue::default();
    let report = BroadcastContext::RoundReport(4);
    let combat = BroadcastContext::Combat(5);
    queue.enqueue(report, SendPriority::Regular);
    assert_eq!(queue.pending().unwrap().context, report);

    queue.clear();
    queue.enqueue(combat, SendPriority::StateChange);
    let pending = queue.pending().unwrap();
    assert_eq!(pending.context, combat);
    assert_eq!(pending.priority, SendPriority::StateChange);

    queue.enqueue(combat, SendPriority::Regular);
    assert_eq!(queue.pending().unwrap().priority, SendPriority::StateChange);
}

#[test]
fn wasd_activation_keeps_the_reserved_slot_for_clearing_idle_text() {
    assert_eq!(edge_priority(false, true, true), Some(SendPriority::Regular));
    assert_eq!(edge_priority(false, true, false), Some(SendPriority::StateChange));
    assert_eq!(edge_priority(true, false, false), Some(SendPriority::StateChange));
}

#[test]
fn local_rate_limiter_reserves_the_fifth_slot_for_state_changes() {
    let start = START;
    let mut limiter = ChatboxRateLimiter::default();
    for offset in 0..4u64 {
        let now = start + offset * 1000;
        assert!(limiter.can_send(SendPriority::Regular, now));
        limiter.record_send(now);
    }

    let transition = start + 4000;
    assert!(!limiter.can_send(SendPriority::Regular, transition));
    assert!(limiter.can_send(SendPriority::StateChange, transition));
    limiter.record_send(transition);
    assert!(!limiter.can_send(SendPriority::StateChange, transition));

    assert!(limiter.can_send(SendPriority::StateChange, start + CHATBOX_RATE_WINDOW_MS));
}

#[test]
fn unchanged_combat_context_keeps_the_normal_send_interval() {
    let start = START;
    let mut schedule = SendSchedule::new(start);
    schedule.observe_broadcast_context(Some(BroadcastContext::Combat(5)), start);
    schedule.complete_cycle(3000, start);

    let update = start + 250;
    schedule.observe_broadcast_context(Some(BroadcastContext::Combat(5)), update);
    assert!(!schedule.is_due(update));
    assert!(schedule.is_due(start + 3000));
}

#[test]
fn no_edge_means_no_priority() {
    assert_eq!(edge_priority(false, false, true), None);
    assert_eq!(edge_priority(false, false, false), None);
}

#[test]
fn visible_text_is_replaced_by_the_context_placeholder_when_the_template_empties() {
    let mut published = PublishedChatboxState::default();
    let first = published.next_update("DPS 10".to_owned(), BroadcastContext::Combat(2), Language::English);
    assert_eq!(first, ChatboxUpdate::Message("DPS 10".to_owned()));
    published.complete(&first);
    assert_eq!(
        published.next_update("   ".to_owned(), BroadcastContext::Combat(2), Language::English),
        ChatboxUpdate::Message("【In combat】Waiting for data…".to_owned())
    );
    assert_eq!(
        published.next_update(String::new(), BroadcastContext::RoundReport(2), Language::Chinese),
        ChatboxUpdate::Message("【回合结束】".to_owned())
    );
}

#[test]
fn short_messages_pass_the_chatbox_limit_unchanged() {
    assert_eq!(limit_chatbox("Boss: Jim"), "Boss: Jim");
    assert_eq!(limit_chatbox(""), "");
}

#[test]
fn the_window_limit_holds_over_a_long_run() {
    let mut limiter = ChatboxRateLimiter::default();
    let mut sent: Vec<u64> = Vec::new();
    for step in 0..400u64 {
        let now = START + step * 370;
        let priority = if step % 3 == 0 { SendPriority::StateChange } else { SendPriority::Regular };
        let regular = limiter.can_send(SendPriority::Regular, now);
        if regular {
            assert!(limiter.can_send(SendPriority::StateChange, now));
        }
        if limiter.can_send(priority, now) {
            limiter.record_send(now);
            sent.push(now);
        }
        let in_window = sent.iter().filter(|t| now - **t < CHATBOX_RATE_WINDOW_MS).count();
        assert!(in_window <= 5, "step {step}");
    }
}
