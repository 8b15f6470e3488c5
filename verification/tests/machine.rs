use restate_sdk::codec::ProtobufRawEntryCodec;
use restate_sdk::entry::{CompletionResult, Entry, EntryResult, InvokeRequest};
use restate_sdk::invocation::{Invocation, InvocationBuilder};
use restate_sdk::machine::StateMachine;
use restate_sdk::message::{CompletionMessage, EntryAckMessage, MessageType, ProtocolMessage, StartMessage};
use restate_sdk::store::StateEntry;
use restate_sdk::syscall::{PollOutcome, RunStep, SyscallState};

fn invocation(extra: Vec<Entry>) -> Invocation {
    let mut builder = InvocationBuilder::new();
    builder.handle_message((
        MessageType::Start,
        ProtocolMessage::Start(StartMessage {
            id: vec![1, 2, 3],
            debug_id: "inv".to_string(),
            known_entries: 1 + extra.len() as u32,
            state_map: vec![StateEntry { key: b"a".to_vec(), value: b"1".to_vec() }],
            partial_state: false,
            key: "k".to_string(),
        }),
    ));
    builder.handle_message((
        MessageType::InputEntry,
        ProtocolMessage::UnparsedEntry(ProtobufRawEntryCodec::serialize_as_input_entry(vec![], b"{}".to_vec())),
    ));
    for e in extra {
        let raw = restate_sdk::codec::RawEntry::new(
            restate_sdk::codec::EntryHeader { ty: e.entry_type(), completed: false, code: 0 },
            restate_sdk::codec::serialize_entry(&e, &String::new()),
        );
        builder.handle_message((MessageType::RunEntry, ProtocolMessage::UnparsedEntry(raw)));
    }
    builder.build()
}

fn call() -> Entry {
    Entry::Call {
        request: InvokeRequest {
            service_name: "Svc".to_string(),
            handler_name: "run".to_string(),
            parameter: b"1".to_vec(),
            headers: vec![],
            key: String::new(),
        },
        result: None,
    }
}

#[test]
fn machine_test_state_machine() {
    let mut machine = StateMachine::new(false, true, invocation(vec![]));
    assert_eq!(machine.input(), Some(b"{}".to_vec()));
    let (index, result) =
        machine.handle_user_code_message(None, None, Entry::GetState { key: b"k".to_vec(), value: None });
    assert_eq!((index, result), (1, None));
    // get state entry: code 0x0800, no flags, key "k" (field 1)
    assert_eq!(machine.take_outgoing(), vec![vec![0x08, 0x00, 0, 0, 0, 0, 0, 3, 0x0A, 0x01, b'k']]);
    assert!(machine.take_outgoing().is_empty());
}

#[test]
fn finishing_writes_output_and_end() {
    let mut machine = StateMachine::new(false, true, invocation(vec![]));
    machine.finish(Ok(b"ok".to_vec()));
    assert!(machine.is_closed());
    let out = machine.take_outgoing();
    assert_eq!(out.len(), 2);
    // output entry: code 0x0401, value "ok" (field 14)
    assert_eq!(out[0], vec![0x04, 0x01, 0, 0, 0, 0, 0, 4, 0x72, 0x02, b'o', b'k']);
    assert_eq!(out[1], vec![0x00, 0x05, 0, 0, 0, 0, 0, 0]);
}

#[test]
fn a_failure_is_reported_as_an_error_then_end() {
    let mut machine = StateMachine::new(false, true, invocation(vec![]));
    machine.finish(Err("bad".to_string()));
    let out = machine.take_outgoing();
    assert_eq!(out.len(), 2);
    // error message: description "bad" (field 3)
    assert_eq!(out[0], vec![0x00, 0x03, 0, 0, 0, 0, 0, 5, 0x1A, 0x03, b'b', b'a', b'd']);
    assert_eq!(out[1], vec![0x00, 0x05, 0, 0, 0, 0, 0, 0]);
}

#[test]
fn nothing_is_written_without_a_connection() {
    let mut machine = StateMachine::new(false, false, invocation(vec![]));
    machine.handle_user_code_message(None, None, Entry::ClearAllState);
    assert!(machine.take_outgoing().is_empty());
}

#[test]
fn clear_all_state_goes_with_the_clear_state_code() {
    let mut machine = StateMachine::new(false, true, invocation(vec![]));
    machine.handle_user_code_message(Some("c".to_string()), None, Entry::ClearAllState);
    // name "c" (field 12)
    assert_eq!(machine.take_outgoing(), vec![vec![0x08, 0x02, 0, 0, 0, 0, 0, 3, 0x62, 0x01, b'c']]);
}

#[test]
fn replayed_entries_are_not_written() {
    let replayed = Entry::Run { result: EntryResult::Success(b"5".to_vec()) };
    let mut machine = StateMachine::new(false, true, invocation(vec![replayed.clone(), replayed]));
    let (i, r) = machine.handle_user_code_message(None, None, Entry::Run { result: EntryResult::Success(vec![]) });
    assert_eq!((i, r), (1, Some(b"5".to_vec())));
    assert!(machine.is_replaying());
    assert!(machine.take_outgoing().is_empty());
}

#[test]
fn syscall_test_call_service() {
    let mut machine = StateMachine::new(false, true, invocation(vec![]));
    let mut state = SyscallState::new();
    let outcome = machine.poll_syscall(&mut state, None, call(), true);
    assert_eq!(outcome, PollOutcome::Pending { abort: false });
    assert!(state.polled);
    assert_eq!(state.entry_index, 1);
    assert_eq!(machine.take_outgoing().len(), 1);
    let message = ProtocolMessage::Completion(CompletionMessage {
        entry_index: 1,
        result: Some(CompletionResult::Success(b"7".to_vec())),
    });
    assert!(machine.accepts(&message));
    assert_eq!(machine.handle_message((MessageType::Completion, message)), (false, Some(1)));
    assert_eq!(machine.poll_syscall(&mut state, None, call(), true), PollOutcome::Ready(b"7".to_vec()));
}

#[test]
fn abort_on_replay_fires_once() {
    let mut machine = StateMachine::new(true, true, invocation(vec![]));
    machine.arm_abort();
    let mut state = SyscallState::new();
    assert_eq!(machine.poll_syscall(&mut state, None, call(), true), PollOutcome::Pending { abort: true });
    assert_eq!(machine.poll_syscall(&mut state, None, call(), true), PollOutcome::Pending { abort: false });
}

#[test]
fn ack_wakes_the_entry() {
    let mut machine = StateMachine::new(false, true, invocation(vec![]));
    machine.handle_user_code_message(None, None, call());
    let ack = ProtocolMessage::EntryAck(EntryAckMessage { entry_index: 1 });
    assert_eq!(machine.handle_message((MessageType::EntryAck, ack)), (false, Some(1)));
    // Other messages are passed over.
    assert_eq!(machine.handle_message((MessageType::End, ProtocolMessage::End)), (false, None));
}

#[test]
fn run_starts_then_records() {
    let mut machine = StateMachine::new(false, true, invocation(vec![]));
    let mut state = SyscallState::new();
    assert_eq!(machine.poll_run(&mut state, Some("side".to_string()), None), RunStep::Start);
    assert_eq!(machine.poll_run(&mut state, Some("side".to_string()), None), RunStep::Pending);
    let r = machine.poll_run(&mut state, Some("side".to_string()), Some(EntryResult::Success(b"x".to_vec())));
    assert_eq!(r, RunStep::Ready(vec![]));
    // run entry: name "side" (field 12), value "x" (field 14)
    assert_eq!(
        machine.take_outgoing(),
        vec![vec![0x0C, 0x05, 0, 0, 0, 0, 0, 9, 0x62, 0x04, b's', b'i', b'd', b'e', 0x72, 0x01, b'x']]
    );
}

#[test]
fn replayed_run_gives_its_result() {
    let replayed = Entry::Run { result: EntryResult::Success(b"5".to_vec()) };
    let mut machine = StateMachine::new(false, true, invocation(vec![replayed, Entry::ClearAllState]));
    assert!(machine.is_next_entry_replaying());
    assert!(machine.replayed_run_ready());
    let mut state = SyscallState::new();
    assert_eq!(machine.poll_run(&mut state, None, None), RunStep::Ready(b"5".to_vec()));
}

#[test]
fn span_marks_replay_start_and_end() {
    let replayed = Entry::Run { result: EntryResult::Success(b"5".to_vec()) };
    let mut machine = StateMachine::new(false, true, invocation(vec![replayed]));
    // Replaying, and the next entry (index 1) is the last replayed one.
    assert_eq!(machine.set_span(), vec![true]);
    machine.handle_user_code_message(None, None, Entry::ClearAllState);
    assert_eq!(machine.set_span(), vec![false]);
}

#[test]
fn state_operations_go_through_the_store() {
    let mut machine = StateMachine::new(false, true, invocation(vec![]));
    let mut value = None;
    assert!(machine.local_state_store().try_complete_get(&"a".to_string(), &mut value));
    assert_eq!(value, Some(CompletionResult::Success(b"1".to_vec())));
    let e = machine.set_state("b".to_string(), b"2".to_vec());
    assert_eq!(e, Entry::SetState { key: b"b".to_vec(), value: b"2".to_vec() });
    let e = machine.clear_state("a".to_string());
    assert_eq!(e, Entry::ClearState { key: b"a".to_vec() });
    let mut value = None;
    assert!(machine.local_state_store().try_complete_get(&"a".to_string(), &mut value));
    assert_eq!(value, Some(CompletionResult::Empty));
    machine.clear_all_state();
    machine.add_state("z".to_string(), b"9".to_vec());
    let mut value = None;
    assert!(machine.local_state_store().try_complete_get(&"z".to_string(), &mut value));
    assert_eq!(value, Some(CompletionResult::Success(b"9".to_vec())));
}

#[test]
fn resolving_writes_nothing() {
    let mut machine = StateMachine::new(false, true, invocation(vec![]));
    machine.handle_user_code_message(None, None, call());
    assert_eq!(machine.take_outgoing().len(), 1);
    let (index, result) = machine.handle_user_code_message(None, Some(1), call());
    assert_eq!((index, result), (1, None));
    assert!(machine.take_outgoing().is_empty());
}

#[test]
fn output_entry_closes_the_machine_journal() {
    let mut machine = StateMachine::new(false, true, invocation(vec![]));
    machine.handle_user_code_message(None, None, Entry::Output { result: EntryResult::Success(b"1".to_vec()) });
    assert!(machine.is_closed());
}
