use restate_sdk::codec::ProtobufRawEntryCodec;
use restate_sdk::invocation::{InvocationBuilder, InvocationState};
use restate_sdk::message::{MessageType, ProtocolMessage, StartMessage};
use restate_sdk::store::StateEntry;

fn start(known_entries: u32) -> ProtocolMessage {
    ProtocolMessage::Start(StartMessage {
        id: vec![1, 2, 3],
        debug_id: "inv_1".to_string(),
        known_entries,
        state_map: vec![StateEntry { key: b"counter".to_vec(), value: b"5".to_vec() }],
        partial_state: false,
        key: "my-key".to_string(),
    })
}

fn input() -> ProtocolMessage {
    ProtocolMessage::UnparsedEntry(ProtobufRawEntryCodec::serialize_as_input_entry(vec![], b"{}".to_vec()))
}

#[test]
fn invocation_test_invocation() {
    let mut builder = InvocationBuilder::new();
    assert_eq!(builder.state(), InvocationState::ExpectingStart);
    assert!(!builder.handle_message((MessageType::Start, start(1))));
    assert_eq!(builder.state(), InvocationState::ExpectingInput);
    assert!(builder.handle_message((MessageType::InputEntry, input())));
    assert_eq!(builder.state(), InvocationState::Complete);
    assert!(builder.has_id());
    let invocation = builder.build();
    assert_eq!(invocation.id, vec![1, 2, 3]);
    assert_eq!(invocation.debug_id, Some("inv_1".to_string()));
    assert_eq!(invocation.number_entries_to_replay, 1);
    assert_eq!(invocation.invocation_value, Some(b"{}".to_vec()));
    assert_eq!(invocation.user_key, Some("my-key".to_string()));
    assert_eq!(invocation.replay_entry_count(), 1);
    assert!(invocation.holds_input_entry());
    assert_eq!(invocation.invocation_id(), vec![1, 2, 3]);
    assert_eq!(invocation.input_value(), Some(b"{}".to_vec()));
    assert_eq!(invocation.entries_to_replay(), 1);
    assert!(invocation.local_state_store.is_some());
}

#[test]
fn invocation_waits_for_all_announced_entries() {
    let mut builder = InvocationBuilder::new();
    assert!(!builder.handle_message((MessageType::Start, start(3))));
    assert!(!builder.handle_message((MessageType::InputEntry, input())));
    assert_eq!(builder.state(), InvocationState::ExpectingFurtherReplay);
    assert_eq!(builder.replay_count(), 1);
    assert!(!builder.handle_message((MessageType::InputEntry, input())));
    assert!(builder.handle_message((MessageType::InputEntry, input())));
    assert_eq!(builder.replay_count(), 3);
    assert_eq!(builder.state(), InvocationState::Complete);
    // A complete builder stays complete.
    assert!(builder.handle_message((MessageType::End, ProtocolMessage::End)));
    assert_eq!(builder.replay_count(), 3);
}

#[test]
fn a_start_of_another_kind_still_moves_on() {
    let mut builder = InvocationBuilder::new();
    assert!(!builder.handle_message((MessageType::End, ProtocolMessage::End)));
    assert_eq!(builder.state(), InvocationState::ExpectingInput);
    assert!(!builder.has_id());
}
