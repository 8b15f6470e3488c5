use restate_sdk::codec::ProtobufRawEntryCodec;
use restate_sdk::entry::{CompletionResult, Entry, EntryResult, Failure};
use restate_sdk::invocation::{Invocation, InvocationBuilder};
use restate_sdk::journal::{Journal, NewExecutionState};
use restate_sdk::message::{CompletionMessage, EntryAckMessage, MessageType, ProtocolMessage, StartMessage};

fn invocation_with(entries: Vec<Entry>) -> Invocation {
    let mut builder = InvocationBuilder::new();
    builder.handle_message((
        MessageType::Start,
        ProtocolMessage::Start(StartMessage {
            id: vec![9],
            debug_id: "inv".to_string(),
            known_entries: 1 + entries.len() as u32,
            state_map: vec![],
            partial_state: true,
            key: String::new(),
        }),
    ));
    builder.handle_message((
        MessageType::InputEntry,
        ProtocolMessage::UnparsedEntry(ProtobufRawEntryCodec::serialize_as_input_entry(vec![], b"1".to_vec())),
    ));
    for e in entries {
        let bytes = restate_sdk::codec::serialize_entry(&e, &String::new());
        let raw = restate_sdk::codec::RawEntry::new(
            restate_sdk::codec::EntryHeader { ty: e.entry_type(), completed: false, code: 0 },
            bytes,
        );
        builder.handle_message((MessageType::GetStateEntry, ProtocolMessage::UnparsedEntry(raw)));
    }
    builder.build()
}

fn get_state(key: &[u8]) -> Entry {
    Entry::GetState { key: key.to_vec(), value: None }
}

#[test]
fn test_journal() {
    let mut journal = Journal::new(invocation_with(vec![]));
    assert!(journal.is_replaying());
    assert_eq!(journal.get_user_code_journal_index(), 0);
    // The only replayed entry is the input: the first entry of the user code is new.
    assert_eq!(journal.handle_user_code_message(1, get_state(b"k")), None);
    assert!(journal.is_processing());
    assert_eq!(journal.get_user_code_journal_index(), 1);
    assert!(journal.is_unresolved(1));
    assert!(journal.handle_runtime_completion_message(CompletionMessage {
        entry_index: 1,
        result: Some(CompletionResult::Success(b"42".to_vec())),
    }));
    assert_eq!(journal.resolve_result(1), Some(b"42".to_vec()));
    assert!(!journal.is_unresolved(1));
}

#[test]
fn resolving_at_the_current_index() {
    let mut journal = Journal::new(invocation_with(vec![]));
    journal.handle_user_code_message(1, get_state(b"k"));
    journal.handle_runtime_completion_message(CompletionMessage {
        entry_index: 1,
        result: Some(CompletionResult::Empty),
    });
    // The current index resolves the kept entry: an empty value is empty bytes.
    assert_eq!(journal.handle_user_code_message(1, get_state(b"k")), Some(vec![]));
    // Resolved once: nothing is left.
    assert_eq!(journal.resolve_result(1), None);
}

#[test]
fn replayed_entries_give_their_results() {
    let replayed = Entry::GetState { key: b"k".to_vec(), value: Some(CompletionResult::Success(b"7".to_vec())) };
    let mut journal = Journal::new(invocation_with(vec![replayed]));
    assert!(journal.is_replaying());
    assert!(journal.is_next_entry_replaying());
    assert_eq!(journal.handle_user_code_message(1, get_state(b"k")), Some(b"7".to_vec()));
    // The last replayed entry: the next one is new, and makes the journal process.
    assert!(journal.is_replaying());
    assert!(!journal.is_next_entry_replaying());
    assert_eq!(journal.handle_user_code_message(2, get_state(b"j")), None);
    assert!(journal.is_processing());
    assert!(journal.is_unresolved(2));
}

#[test]
fn replayed_output_closes_the_journal() {
    let output = Entry::Output { result: EntryResult::Success(b"done".to_vec()) };
    let mut journal = Journal::new(invocation_with(vec![output.clone()]));
    assert_eq!(journal.handle_user_code_message(1, output), Some(b"done".to_vec()));
    assert!(journal.is_closed());
    assert!(journal.is_output_replayed());
}

#[test]
fn closed_journal_stays_closed() {
    let mut journal = Journal::new(invocation_with(vec![]));
    journal.close();
    assert!(journal.is_closed());
    assert_eq!(journal.handle_user_code_message(1, get_state(b"k")), None);
    assert!(journal.is_closed());
    assert_eq!(journal.get_state(), NewExecutionState::CLOSED);
    assert!(!journal.is_unresolved(1));
}

#[test]
fn failed_completion_resolves_to_nothing() {
    let mut journal = Journal::new(invocation_with(vec![]));
    journal.handle_user_code_message(1, get_state(b"k"));
    journal.handle_runtime_completion_message(CompletionMessage {
        entry_index: 1,
        result: Some(CompletionResult::Failure(Failure { code: 500, message: "boom".to_string() })),
    });
    assert_eq!(journal.resolve_result(1), None);
}

#[test]
fn sleep_fires_on_empty_completion() {
    let mut journal = Journal::new(invocation_with(vec![]));
    journal.handle_user_code_message(1, Entry::Sleep { wake_up_time: 10, result: None });
    assert!(journal.handle_runtime_completion_message(CompletionMessage {
        entry_index: 1,
        result: Some(CompletionResult::Empty),
    }));
    assert_eq!(journal.resolve_result(1), Some(vec![]));
}

#[test]
fn ack_removes_the_kept_entry() {
    let mut journal = Journal::new(invocation_with(vec![]));
    journal.handle_user_code_message(1, get_state(b"k"));
    assert!(journal.handle_runtime_entry_ack_message(EntryAckMessage { entry_index: 1 }));
    assert!(!journal.is_unresolved(1));
    assert!(!journal.handle_runtime_entry_ack_message(EntryAckMessage { entry_index: 1 }));
}

#[test]
fn completion_of_an_unknown_entry_is_ignored() {
    let mut journal = Journal::new(invocation_with(vec![]));
    assert!(!journal.handle_runtime_completion_message(CompletionMessage { entry_index: 4, result: None }));
}

#[test]
fn state_keys_completion_must_be_readable() {
    let mut journal = Journal::new(invocation_with(vec![]));
    journal.handle_user_code_message(1, Entry::GetStateKeys { value: None });
    let bad = CompletionMessage { entry_index: 1, result: Some(CompletionResult::Success(vec![0x0A])) };
    assert!(!journal.completion_readable(&bad));
    let good = CompletionMessage {
        entry_index: 1,
        result: Some(ProtobufRawEntryCodec::serialize_get_state_keys_completion(vec![b"a".to_vec()])),
    };
    assert!(journal.completion_readable(&good));
    assert!(journal.handle_runtime_completion_message(good));
    assert_eq!(journal.resolve_result(1), Some(vec![]));
}

#[test]
fn a_repeated_completion_wakes_nobody() {
    let mut journal = Journal::new(invocation_with(vec![]));
    journal.handle_user_code_message(1, get_state(b"k"));
    let completion = CompletionMessage { entry_index: 1, result: Some(CompletionResult::Success(b"1".to_vec())) };
    assert!(journal.handle_runtime_completion_message(completion.clone()));
    assert!(!journal.handle_runtime_completion_message(completion));
    assert!(journal.is_unresolved(1));
    // Nobody waits any more: the acknowledgement wakes nobody either.
    assert!(!journal.handle_runtime_entry_ack_message(EntryAckMessage { entry_index: 1 }));
}

#[test]
fn journal_keeps_the_invocation() {
    let journal = Journal::new(invocation_with(vec![]));
    assert_eq!(journal.invocation().id, vec![9]);
    assert_eq!(journal.invocation().debug_id, Some("inv".to_string()));
}
