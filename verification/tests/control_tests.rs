use relayctl::control::{
    relay_service, CriticalAction, CriticalRetry, CRITICAL_RETRY_LIMIT,
};
use relayctl::queue::MsgFMQueue;
use relayctl::relay::{DoubleRelay, RelayAddr, RunOrder, SetState};

#[test]
fn sweep_stops_overdue_relay_and_queues_notice() {
    let mut bank = DoubleRelay::new();
    let mut outbox = MsgFMQueue::new();
    assert!(bank.set(RelayAddr::First, SetState::Run(RunOrder::new(0, 60))).is_ok());

    relay_service(&mut bank, &mut outbox, 60, 42);

    assert!(bank.first_relay.running.is_none());
    assert!(!bank.first_relay.output_on);
    let notice = outbox.peek().unwrap();
    assert_eq!(notice.chat_id, 42);
    assert_eq!(
        notice.text,
        "Deadline... Turned off pompa_air\nStart: 1970-01-01 07:00:00 WIB\nFinish: 1970-01-01 07:01:00 WIB"
    );
}

#[test]
fn sweep_before_deadline_changes_nothing() {
    let mut bank = DoubleRelay::new();
    let mut outbox = MsgFMQueue::new();
    assert!(bank.set(RelayAddr::First, SetState::Run(RunOrder::new(0, 60))).is_ok());

    relay_service(&mut bank, &mut outbox, 59, 42);

    assert!(bank.first_relay.running.is_some());
    assert!(bank.first_relay.output_on);
    assert!(outbox.is_empty());
}

#[test]
fn sweep_handles_both_relays_in_order() {
    let mut bank = DoubleRelay::new();
    let mut outbox = MsgFMQueue::new();
    assert!(bank.set(RelayAddr::Both, SetState::Run(RunOrder::new(0, 10))).is_ok());

    relay_service(&mut bank, &mut outbox, 10, 7);

    assert!(bank.first_relay.running.is_none());
    assert!(bank.second_relay.running.is_none());
    let first = outbox.peek().unwrap();
    assert!(first.text.contains("pompa_air"));
    assert!(outbox.remove_first());
    let second = outbox.peek().unwrap();
    assert!(second.text.contains("lain_lain"));
}

#[test]
fn sweep_on_idle_bank_is_a_noop() {
    let mut bank = DoubleRelay::new();
    let mut outbox = MsgFMQueue::new();
    relay_service(&mut bank, &mut outbox, u64::MAX / 2, 1);
    assert!(outbox.is_empty());
    assert!(bank.first_relay.running.is_none());
}

#[test]
fn critical_retry_escalates_after_the_budget() {
    let mut section = CriticalRetry::new();
    for _ in 0..CRITICAL_RETRY_LIMIT {
        assert_eq!(section.note_failure(), CriticalAction::RetryAfterCooldown);
    }
    assert_eq!(section.note_failure(), CriticalAction::Escalate);
    // escalation is stable
    assert_eq!(section.note_failure(), CriticalAction::Escalate);
}
