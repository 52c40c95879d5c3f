use relayctl::relay::{
    DoubleRelay, DoubleRelayStatus, RelayAddr, RelayError, RelayQuery, RunOrder, SetState,
};

fn on_query<'a>(name: &'a str, duration: Option<u32>) -> RelayQuery<'a> {
    RelayQuery { name: Some(name), instruction: Some(true), duration }
}

#[test]
fn new_bank_is_idle() {
    let bank = DoubleRelay::new();
    assert_eq!(bank.first_relay.name, "pompa_air");
    assert_eq!(bank.second_relay.name, "lain_lain");
    assert!(bank.first_relay.running.is_none());
    assert!(!bank.first_relay.output_on);
    assert!(bank.second_relay.running.is_none());
}

#[test]
fn resolve_addr_matches_names_and_both() {
    let bank = DoubleRelay::new();
    assert_eq!(bank.resolve_addr("pompa_air"), Some(RelayAddr::First));
    assert_eq!(bank.resolve_addr("lain_lain"), Some(RelayAddr::Second));
    assert_eq!(bank.resolve_addr("both"), Some(RelayAddr::Both));
    assert_eq!(bank.resolve_addr("pompa"), None);
    assert_eq!(bank.resolve_addr(""), None);
}

#[test]
fn run_while_running_keeps_existing_order() {
    let mut bank = DoubleRelay::new();
    let first = RunOrder::new(100, 200);
    assert!(bank.set(RelayAddr::First, SetState::Run(first)).is_ok());
    assert!(bank.first_relay.output_on);

    let second = RunOrder::new(300, 400);
    let err = bank.set(RelayAddr::First, SetState::Run(second)).unwrap_err();
    assert!(matches!(err, RelayError::AlreadyRunning("pompa_air")));
    // the existing order is untouched
    let kept = bank.first_relay.running.unwrap();
    assert_eq!(kept.start_at.0, 100);
    assert_eq!(kept.end_at.0, 200);
}

#[test]
fn stop_is_idempotent_and_unconditional() {
    let mut bank = DoubleRelay::new();
    assert!(bank.set(RelayAddr::Both, SetState::Run(RunOrder::new(0, 10))).is_ok());
    assert!(bank.set(RelayAddr::Both, SetState::Stop).is_ok());
    assert!(bank.first_relay.running.is_none());
    assert!(!bank.first_relay.output_on);
    assert!(bank.second_relay.running.is_none());
    // stopping an already stopped bank succeeds again
    assert!(bank.set(RelayAddr::Both, SetState::Stop).is_ok());
}

#[test]
fn run_both_fails_on_second_keeps_second_untouched() {
    let mut bank = DoubleRelay::new();
    assert!(bank.set(RelayAddr::Second, SetState::Run(RunOrder::new(1, 2))).is_ok());
    let err = bank.set(RelayAddr::Both, SetState::Run(RunOrder::new(5, 6))).unwrap_err();
    assert!(matches!(err, RelayError::AlreadyRunning("lain_lain")));
    // the second relay keeps its order; the first accepted before the refusal
    let kept = bank.second_relay.running.unwrap();
    assert_eq!(kept.start_at.0, 1);
    assert_eq!(kept.end_at.0, 2);
    assert!(bank.first_relay.running.is_some());
}

#[test]
fn pool_event_signals_deadline_exactly_at_end_time() {
    let mut bank = DoubleRelay::new();
    let t0 = 1000u64;
    assert!(bank.set(RelayAddr::First, SetState::Run(RunOrder::new(t0, t0 + 60))).is_ok());

    let events = bank.pool_event(t0 + 59);
    assert!(events[0].is_none());
    assert!(events[1].is_none());

    let events = bank.pool_event(t0 + 60);
    let e = events[0].as_ref().unwrap();
    assert!(e.run_deadline);
    assert_eq!(e.name, "pompa_air");
    assert!(events[1].is_none());
}

#[test]
fn pool_event_is_silent_for_idle_relays() {
    let bank = DoubleRelay::new();
    let events = bank.pool_event(u64::MAX - 1);
    assert!(events[0].is_none());
    assert!(events[1].is_none());
}

#[test]
fn interprete_on_builds_order_from_now_and_duration() {
    let mut bank = DoubleRelay::new();
    let status = bank.interprete(on_query("pompa_air", Some(60)), 1000).unwrap();
    match status {
        DoubleRelayStatus::Single(s) => {
            assert_eq!(s.name, "pompa_air");
            let ord = s.run_info.unwrap();
            assert_eq!(ord.start_at.0, 1000);
            assert_eq!(ord.end_at.0, 1060);
        },
        DoubleRelayStatus::Both(_) => panic!("single address must give a single status"),
    }
}

#[test]
fn interprete_defaults_to_one_hour() {
    let mut bank = DoubleRelay::new();
    bank.interprete(on_query("lain_lain", None), 500).unwrap();
    let ord = bank.second_relay.running.unwrap();
    assert_eq!(ord.start_at.0, 500);
    assert_eq!(ord.end_at.0, 4100);
}

#[test]
fn interprete_off_stops_the_relay() {
    let mut bank = DoubleRelay::new();
    bank.interprete(on_query("pompa_air", Some(60)), 0).unwrap();
    let q = RelayQuery { name: Some("pompa_air"), instruction: Some(false), duration: None };
    let status = bank.interprete(q, 30).unwrap();
    match status {
        DoubleRelayStatus::Single(s) => assert!(s.run_info.is_none()),
        DoubleRelayStatus::Both(_) => panic!("single address must give a single status"),
    }
    assert!(!bank.first_relay.output_on);
}

#[test]
fn interprete_rejects_unknown_and_incomplete_queries() {
    let mut bank = DoubleRelay::new();
    let q = RelayQuery { name: None, instruction: Some(true), duration: None };
    assert!(matches!(bank.interprete(q, 0), Err(RelayError::NameNotFound)));
    let q = RelayQuery { name: Some("nonesuch"), instruction: Some(true), duration: None };
    assert!(matches!(bank.interprete(q, 0), Err(RelayError::NameNotFound)));
    let q = RelayQuery { name: Some("pompa_air"), instruction: None, duration: None };
    assert!(matches!(bank.interprete(q, 0), Err(RelayError::MissingInstruction)));
    assert!(bank.first_relay.running.is_none());
}

#[test]
fn status_text_off_and_on() {
    let mut bank = DoubleRelay::new();
    let st = bank.get_status(RelayAddr::First);
    assert_eq!(st.to_text(), "Relay pompa_air status off");

    assert!(bank.set(RelayAddr::First, SetState::Run(RunOrder::new(0, 60))).is_ok());
    let st = bank.get_status(RelayAddr::First);
    assert_eq!(
        st.to_text(),
        "Relay pompa_air status on\nstart: 1970-01-01 07:00:00 WIB\nfinish: 1970-01-01 07:01:00 WIB"
    );
}

#[test]
fn status_text_for_both_relays() {
    let bank = DoubleRelay::new();
    let st = bank.get_status(RelayAddr::Both);
    assert_eq!(st.to_text(), "Relay pompa_air status off\n\nRelay lain_lain status off");
}

#[test]
fn deadline_end_to_end() {
    // a relay started for 60 seconds at t0 yields no event at t0+59, exactly
    // one at t0+60, and reports off after the corresponding stop
    let mut bank = DoubleRelay::new();
    let t0 = 7000u64;
    bank.interprete(on_query("pompa_air", Some(60)), t0).unwrap();

    let events = bank.pool_event(t0 + 59);
    assert!(events[0].is_none() && events[1].is_none());

    let events = bank.pool_event(t0 + 60);
    assert!(events[0].is_some());
    assert!(events[1].is_none());
    let name = events[0].as_ref().unwrap().name;
    let addr = bank.resolve_addr(name).unwrap();
    assert!(bank.set(addr, SetState::Stop).is_ok());

    let status = bank.get_status(addr);
    match &status {
        DoubleRelayStatus::Single(s) => assert!(s.run_info.is_none()),
        DoubleRelayStatus::Both(_) => panic!("single address must give a single status"),
    }
    assert_eq!(status.to_text(), "Relay pompa_air status off");
}

#[test]
fn relay_error_texts_match_the_wire_wording() {
    assert_eq!(RelayError::NameNotFound.to_text(), "cannot resolve name");
    assert_eq!(RelayError::MissingInstruction.to_text(), "invalid instruction");
    assert_eq!(
        RelayError::AlreadyRunning("pompa_air").to_text(),
        "relay pompa_air at ON state, turn off first!"
    );
}
