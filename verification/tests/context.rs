use restate_sdk::context::{
    awakeable_id, awakeable_id_from_encoded, awakeable_id_input, combinator_entry, packed_int32, timeout_order,
    timeout_outcome, CallContextType, TimeoutOutcome,
};
use restate_sdk::endpoint::RestateEndpointOptions;
use restate_sdk::entry::Entry;
use restate_sdk::logger::ReplayFilter;
use restate_sdk::syscall::{wake_up_time, JournalIndex, SyscallState};

#[test]
fn test_context() {
    assert_eq!(awakeable_id(&vec![1, 2, 3], 1), "prom_1AQIDAAAAAQ");
    assert_eq!(awakeable_id(&vec![0xfb, 0xff], 2), "prom_1-_8AAAAC");
    assert_eq!(wake_up_time(1_000, 250), 1_250);
}

#[test]
fn awakeable_id_parts() {
    assert_eq!(awakeable_id_input(&vec![7], 0x01020304), vec![7, 1, 2, 3, 4]);
    assert_eq!(awakeable_id_from_encoded("abc"), "prom_1abc");
}

#[test]
fn timeout_orders() {
    assert_eq!(timeout_order(true, true, 3, 4), vec![4]);
    assert_eq!(timeout_order(false, true, 3, 4), vec![3, 4]);
    assert_eq!(timeout_order(false, false, 3, 4), vec![3, 4]);
    assert_eq!(timeout_outcome(true), TimeoutOutcome::TimedOut);
    assert_eq!(timeout_outcome(false), TimeoutOutcome::Completed);
}

#[test]
fn combinator_entries_are_packed() {
    assert_eq!(packed_int32(&vec![1, 300]), vec![0x01, 0xAC, 0x02]);
    assert_eq!(packed_int32(&vec![-1]), vec![0xFF, 0xFF, 0xFF, 0xFF, 0xFF, 0xFF, 0xFF, 0xFF, 0xFF, 0x01]);
    assert_eq!(combinator_entry(&vec![2, 3]), Entry::Custom { value: vec![0x12, 0x02, 0x02, 0x03] });
    assert_eq!(combinator_entry(&vec![]), Entry::Custom { value: vec![] });
}

#[test]
fn endpoint_defaults() {
    let options = RestateEndpointOptions::default();
    assert_eq!(options.listen_address, "localhost");
    assert_eq!(options.listen_port, 3000);
    assert_ne!(CallContextType::Plain, CallContextType::Run);
}

#[test]
fn syscall_state_index() {
    let s = SyscallState::with_index(5);
    assert_eq!(s.entry_index(), 5);
    assert!(!s.polled);
    assert_eq!(SyscallState::new().entry_index(), 0);
}

#[test]
fn test_filter() {
    let filter = ReplayFilter::new();
    assert!(filter.event_enabled(None));
    assert!(!filter.event_enabled(Some(true)));
    assert!(filter.event_enabled(Some(false)));
    assert!(filter.recorded_replay(true, true, false));
    assert!(!filter.recorded_replay(false, true, false));
}
