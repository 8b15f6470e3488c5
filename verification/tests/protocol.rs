use restate_sdk::codec::{serialize_entry, EntryHeader, ProtobufRawEntryCodec, RawEntry};
use restate_sdk::entry::{CompletionResult, Entry, EntryResult, EntryType, InvokeRequest};
use restate_sdk::message::{
    decode_message, encode_end, encode_raw_entry, DecodingError, FrameDecoder, MessageHeader, MessageType,
    ProtocolMessage,
};

fn call_entry() -> Entry {
    Entry::Call {
        request: InvokeRequest {
            service_name: "MySvc".to_string(),
            handler_name: "MyMethod".to_string(),
            parameter: b"input".to_vec(),
            headers: vec![],
            key: String::new(),
        },
        result: None,
    }
}

#[test]
fn complete_invoke() {
    let invoke_result = b"output".to_vec();

    // Create an invoke entry
    let raw_entry = RawEntry::new(
        EntryHeader { ty: EntryType::Call, completed: false, code: 0x0C01 },
        serialize_entry(&call_entry(), &String::new()),
    );

    // Complete the expected entry directly on the materialized model
    let mut expected_entry = raw_entry.deserialize_entry().unwrap();
    match &mut expected_entry {
        Entry::Call { result, .. } => *result = Some(EntryResult::Success(invoke_result.clone())),
        _ => unreachable!(),
    };

    // Complete the raw entry
    let mut actual_raw_entry = raw_entry;
    ProtobufRawEntryCodec::write_completion(&mut actual_raw_entry, CompletionResult::Success(invoke_result)).unwrap();
    let actual_entry = actual_raw_entry.deserialize_entry().unwrap();

    assert_eq!(actual_raw_entry.header.is_completed(), Some(true));
    assert_eq!(actual_entry, expected_entry);
}

#[test]
fn test_connection() {
    // A frame split over two chunks is read once it arrived whole.
    let raw = RawEntry::new(
        EntryHeader { ty: EntryType::Call, completed: false, code: 0x0C01 },
        serialize_entry(&call_entry(), &String::new()),
    );
    let frame = encode_raw_entry(&raw).unwrap();
    let mut decoder = FrameDecoder::new();
    decoder.push(&frame[..5]);
    assert_eq!(decoder.consume_next(), Ok(None));
    decoder.push(&frame[5..]);
    match decoder.consume_next() {
        Ok(Some((header, ProtocolMessage::UnparsedEntry(entry)))) => {
            assert_eq!(header.code, 0x0C01);
            assert_eq!(header.flags, 0);
            assert_eq!(header.length as usize, raw.entry.len());
            assert_eq!(entry, raw);
        }
        other => panic!("unexpected {:?}", other),
    }
    assert_eq!(decoder.consume_next(), Ok(None));
}

#[test]
fn entry_frame_has_big_endian_header() {
    let raw = RawEntry::new(EntryHeader { ty: EntryType::Custom, completed: false, code: 0xFC00 }, vec![1, 2, 3]);
    let frame = encode_raw_entry(&raw).unwrap();
    assert_eq!(frame, vec![0xFC, 0x00, 0x00, 0x00, 0x00, 0x00, 0x00, 0x03, 1, 2, 3]);
}

#[test]
fn completed_entry_frame_sets_the_completed_flag() {
    let mut raw = RawEntry::new(
        EntryHeader { ty: EntryType::Call, completed: false, code: 0x0C01 },
        serialize_entry(&call_entry(), &String::new()),
    );
    ProtobufRawEntryCodec::write_completion(&mut raw, CompletionResult::Success(b"ok".to_vec())).unwrap();
    let frame = encode_raw_entry(&raw).unwrap();
    assert_eq!(&frame[0..4], &[0x0C, 0x01, 0x00, 0x01]);
    let mut decoder = FrameDecoder::new();
    decoder.push(&frame);
    match decoder.consume_next() {
        Ok(Some((_, ProtocolMessage::UnparsedEntry(entry)))) => {
            assert_eq!(entry, raw);
            assert_eq!(entry.header.is_completed(), Some(true));
        }
        other => panic!("unexpected {:?}", other),
    }
}

#[test]
fn end_frame_round_trip() {
    let frame = encode_end();
    assert_eq!(frame, vec![0x00, 0x05, 0, 0, 0, 0, 0, 0]);
    let mut decoder = FrameDecoder::new();
    decoder.push(&frame);
    assert_eq!(
        decoder.consume_next(),
        Ok(Some((MessageHeader { code: 5, flags: 0, length: 0 }, ProtocolMessage::End)))
    );
}

#[test]
fn unknown_message_type_is_an_error() {
    let r = decode_message(MessageHeader { code: 0x0999, flags: 0, length: 0 }, vec![]);
    assert_eq!(r, Err(DecodingError::UnknownMessageType(0x0999)));
}

#[test]
fn suspension_is_not_received() {
    let r = decode_message(MessageHeader { code: 0x0002, flags: 0, length: 0 }, vec![]);
    assert_eq!(r, Err(DecodingError::UnexpectedMessageType(0x0002)));
}

#[test]
fn invalid_completion_body_is_an_error() {
    // A field key that announces a bytes field with no length.
    let r = decode_message(MessageHeader { code: 0x0001, flags: 0, length: 1 }, vec![0x0A]);
    assert_eq!(r, Err(DecodingError::InvalidBody(0x0001)));
}

#[test]
fn completion_message_is_read() {
    // entry_index = 3 (field 1), value = "hi" (field 14)
    let body = vec![0x08, 0x03, 0x72, 0x02, b'h', b'i'];
    let r = decode_message(MessageHeader { code: 0x0001, flags: 0, length: 6 }, body).unwrap();
    match r {
        ProtocolMessage::Completion(c) => {
            assert_eq!(c.entry_index, 3);
            assert_eq!(c.result, Some(CompletionResult::Success(b"hi".to_vec())));
        }
        other => panic!("unexpected {:?}", other),
    }
}

#[test]
fn entry_ack_is_read() {
    let r = decode_message(MessageHeader { code: 0x0004, flags: 0, length: 2 }, vec![0x08, 0x07]).unwrap();
    match r {
        ProtocolMessage::EntryAck(a) => assert_eq!(a.entry_index, 7),
        other => panic!("unexpected {:?}", other),
    }
}

#[test]
fn message_type_codes() {
    assert_eq!(MessageType::from_code(0x0C01), Some(MessageType::CallEntry));
    assert_eq!(MessageType::CallEntry.to_code(), 0x0C01);
    assert_eq!(MessageType::from_code(0xFC05), Some(MessageType::CustomEntry(0xFC05)));
    assert_eq!(MessageType::from_code(0x0006), None);
}

#[test]
fn entry_round_trip_through_serialization() {
    let e = call_entry();
    let bytes = serialize_entry(&e, &"name".to_string());
    assert_eq!(ProtobufRawEntryCodec::deserialize(EntryType::Call, &bytes), Ok(e));
    assert_eq!(ProtobufRawEntryCodec::read_entry_name(EntryType::Call, &bytes), Ok(Some("name".to_string())));
}

#[test]
fn deserialize_error_names_the_entry_type() {
    let r = ProtobufRawEntryCodec::deserialize(EntryType::GetState, &vec![0x0A]);
    assert_eq!(r.unwrap_err().entry_type, EntryType::GetState);
}

#[test]
fn input_entry_serialization() {
    let raw = ProtobufRawEntryCodec::serialize_as_input_entry(vec![], b"{}".to_vec());
    assert_eq!(raw.header.ty, EntryType::Input);
    assert_eq!(raw.entry, vec![0x72, 0x02, b'{', b'}']);
    assert_eq!(
        raw.deserialize_entry(),
        Ok(Entry::Input { headers: vec![], value: b"{}".to_vec() })
    );
}

#[test]
fn state_keys_completion() {
    let c = ProtobufRawEntryCodec::serialize_get_state_keys_completion(vec![b"a".to_vec(), b"bc".to_vec()]);
    assert_eq!(c, CompletionResult::Success(vec![0x0A, 0x01, b'a', 0x0A, 0x02, b'b', b'c']));
}
