//! The framing of the service protocol: message types, message headers, and the
//! messages the runtime and the service exchange.

use vstd::prelude::*;
use crate::wire::{Field, FieldV, WireValue, WireValueV, spec_read_fields, read_fields, spec_encode_fields, valid_fields, encode_fields, copy_range, append_bytes};
use crate::entry::{EntryType, CompletionResult, CompletionResultV, Failure, opt_view};
use crate::codec::{
    RawEntry, EntryHeader, fields_view, spec_last_of, spec_all_of, spec_bytes_of, spec_string_of, spec_varint_of,
    spec_one_of, completion_of, last_of, all_of, bytes_of, string_of, varint_of, one_of, OneOf,
};
use crate::store::StateEntry;

verus! {

/// The type of a protocol message.
#[derive(Clone, Copy, Debug, PartialEq, Eq, Structural)]
pub enum MessageType {
    Start,
    Completion,
    Suspension,
    Error,
    End,
    EntryAck,
    InputEntry,
    OutputEntry,
    GetStateEntry,
    SetStateEntry,
    ClearStateEntry,
    ClearAllStateEntry,
    GetStateKeysEntry,
    GetPromiseEntry,
    PeekPromiseEntry,
    CompletePromiseEntry,
    SleepEntry,
    CallEntry,
    OneWayCallEntry,
    AwakeableEntry,
    CompleteAwakeableEntry,
    RunEntry,
    CustomEntry(u16),
}

/// The code of a message type on the wire.
pub open spec fn spec_message_type_code(t: MessageType) -> u16 {
    match t {
        MessageType::Start => 0x0000,
        MessageType::Completion => 0x0001,
        MessageType::Suspension => 0x0002,
        MessageType::Error => 0x0003,
        MessageType::EntryAck => 0x0004,
        MessageType::End => 0x0005,
        MessageType::InputEntry => 0x0400,
        MessageType::OutputEntry => 0x0401,
        MessageType::GetStateEntry => 0x0800,
        MessageType::SetStateEntry => 0x0801,
        MessageType::ClearStateEntry => 0x0802,
        MessageType::ClearAllStateEntry => 0x0803,
        MessageType::GetStateKeysEntry => 0x0804,
        MessageType::GetPromiseEntry => 0x0808,
        MessageType::PeekPromiseEntry => 0x0809,
        MessageType::CompletePromiseEntry => 0x080A,
        MessageType::SleepEntry => 0x0C00,
        MessageType::CallEntry => 0x0C01,
        MessageType::OneWayCallEntry => 0x0C02,
        MessageType::AwakeableEntry => 0x0C03,
        MessageType::CompleteAwakeableEntry => 0x0C04,
        MessageType::RunEntry => 0x0C05,
        MessageType::CustomEntry(c) => c,
    }
}

/// The message type of a code: the known codes, and any code from `0xFC00` on
/// as a custom entry.
pub open spec fn spec_message_type_of(code: u16) -> Option<MessageType> {
    if code == 0x0000 { Some(MessageType::Start) }
    else if code == 0x0001 { Some(MessageType::Completion) }
    else if code == 0x0002 { Some(MessageType::Suspension) }
    else if code == 0x0003 { Some(MessageType::Error) }
    else if code == 0x0004 { Some(MessageType::EntryAck) }
    else if code == 0x0005 { Some(MessageType::End) }
    else if code == 0x0400 { Some(MessageType::InputEntry) }
    else if code == 0x0401 { Some(MessageType::OutputEntry) }
    else if code == 0x0800 { Some(MessageType::GetStateEntry) }
    else if code == 0x0801 { Some(MessageType::SetStateEntry) }
    else if code == 0x0802 { Some(MessageType::ClearStateEntry) }
    else if code == 0x0803 { Some(MessageType::ClearAllStateEntry) }
    else if code == 0x0804 { Some(MessageType::GetStateKeysEntry) }
    else if code == 0x0808 { Some(MessageType::GetPromiseEntry) }
    else if code == 0x0809 { Some(MessageType::PeekPromiseEntry) }
    else if code == 0x080A { Some(MessageType::CompletePromiseEntry) }
    else if code == 0x0C00 { Some(MessageType::SleepEntry) }
    else if code == 0x0C01 { Some(MessageType::CallEntry) }
    else if code == 0x0C02 { Some(MessageType::OneWayCallEntry) }
    else if code == 0x0C03 { Some(MessageType::AwakeableEntry) }
    else if code == 0x0C04 { Some(MessageType::CompleteAwakeableEntry) }
    else if code == 0x0C05 { Some(MessageType::RunEntry) }
    else if code >= 0xFC00 { Some(MessageType::CustomEntry(code)) }
    else { None }
}

/// A message type is valid where its code is: a custom entry's code is from
/// `0xFC00` on.
pub open spec fn valid_message_type(t: MessageType) -> bool {
    match t {
        MessageType::CustomEntry(c) => c >= 0xFC00,
        _ => true,
    }
}

impl MessageType {
    /// The code of this message type.
    pub fn to_code(&self) -> (r: u16)
        ensures
            r == spec_message_type_code(*self),
    {
        match self {
            MessageType::Start => 0x0000,
            MessageType::Completion => 0x0001,
            MessageType::Suspension => 0x0002,
            MessageType::Error => 0x0003,
            MessageType::EntryAck => 0x0004,
            MessageType::End => 0x0005,
            MessageType::InputEntry => 0x0400,
            MessageType::OutputEntry => 0x0401,
            MessageType::GetStateEntry => 0x0800,
            MessageType::SetStateEntry => 0x0801,
            MessageType::ClearStateEntry => 0x0802,
            MessageType::ClearAllStateEntry => 0x0803,
            MessageType::GetStateKeysEntry => 0x0804,
            MessageType::GetPromiseEntry => 0x0808,
            MessageType::PeekPromiseEntry => 0x0809,
            MessageType::CompletePromiseEntry => 0x080A,
            MessageType::SleepEntry => 0x0C00,
            MessageType::CallEntry => 0x0C01,
            MessageType::OneWayCallEntry => 0x0C02,
            MessageType::AwakeableEntry => 0x0C03,
            MessageType::CompleteAwakeableEntry => 0x0C04,
            MessageType::RunEntry => 0x0C05,
            MessageType::CustomEntry(c) => *c,
        }
    }

    /// The message type of a code, or `None` for an unknown code.
    pub fn from_code(code: u16) -> (r: Option<MessageType>)
        ensures
            r == spec_message_type_of(code),
    {
        if code == 0x0000 { Some(MessageType::Start) }
        else if code == 0x0001 { Some(MessageType::Completion) }
        else if code == 0x0002 { Some(MessageType::Suspension) }
        else if code == 0x0003 { Some(MessageType::Error) }
        else if code == 0x0004 { Some(MessageType::EntryAck) }
        else if code == 0x0005 { Some(MessageType::End) }
        else if code == 0x0400 { Some(MessageType::InputEntry) }
        else if code == 0x0401 { Some(MessageType::OutputEntry) }
        else if code == 0x0800 { Some(MessageType::GetStateEntry) }
        else if code == 0x0801 { Some(MessageType::SetStateEntry) }
        else if code == 0x0802 { Some(MessageType::ClearStateEntry) }
        else if code == 0x0803 { Some(MessageType::ClearAllStateEntry) }
        else if code == 0x0804 { Some(MessageType::GetStateKeysEntry) }
        else if code == 0x0808 { Some(MessageType::GetPromiseEntry) }
        else if code == 0x0809 { Some(MessageType::PeekPromiseEntry) }
        else if code == 0x080A { Some(MessageType::CompletePromiseEntry) }
        else if code == 0x0C00 { Some(MessageType::SleepEntry) }
        else if code == 0x0C01 { Some(MessageType::CallEntry) }
        else if code == 0x0C02 { Some(MessageType::OneWayCallEntry) }
        else if code == 0x0C03 { Some(MessageType::AwakeableEntry) }
        else if code == 0x0C04 { Some(MessageType::CompleteAwakeableEntry) }
        else if code == 0x0C05 { Some(MessageType::RunEntry) }
        else if code >= 0xFC00 { Some(MessageType::CustomEntry(code)) }
        else { None }
    }
}

/// Every valid message type is read back from its code.
pub proof fn law_message_type_code_round_trip(t: MessageType)
    requires
        valid_message_type(t),
    ensures
        spec_message_type_of(spec_message_type_code(t)) == Some(t),
{
}

/// Every code that names a message type is that type's code.
pub proof fn law_message_code_round_trip(code: u16)
    requires
        spec_message_type_of(code) is Some,
    ensures
        spec_message_type_code(spec_message_type_of(code).unwrap()) == code,
{
}

/// The kind of entry a message type carries, if it carries one.
pub open spec fn spec_entry_type_of(t: MessageType) -> Option<EntryType> {
    match t {
        MessageType::InputEntry => Some(EntryType::Input),
        MessageType::OutputEntry => Some(EntryType::Output),
        MessageType::GetStateEntry => Some(EntryType::GetState),
        MessageType::SetStateEntry => Some(EntryType::SetState),
        MessageType::ClearStateEntry => Some(EntryType::ClearState),
        MessageType::ClearAllStateEntry => Some(EntryType::ClearAllState),
        MessageType::GetStateKeysEntry => Some(EntryType::GetStateKeys),
        MessageType::GetPromiseEntry => Some(EntryType::GetPromise),
        MessageType::PeekPromiseEntry => Some(EntryType::PeekPromise),
        MessageType::CompletePromiseEntry => Some(EntryType::CompletePromise),
        MessageType::SleepEntry => Some(EntryType::Sleep),
        MessageType::CallEntry => Some(EntryType::Call),
        MessageType::OneWayCallEntry => Some(EntryType::OneWayCall),
        MessageType::AwakeableEntry => Some(EntryType::Awakeable),
        MessageType::CompleteAwakeableEntry => Some(EntryType::CompleteAwakeable),
        MessageType::RunEntry => Some(EntryType::Run),
        MessageType::CustomEntry(_) => Some(EntryType::Custom),
        _ => None,
    }
}

/// The message type that carries an entry of kind `ty` (a custom entry with `code`).
pub open spec fn spec_message_type_of_entry(ty: EntryType, code: u16) -> MessageType {
    match ty {
        EntryType::Input => MessageType::InputEntry,
        EntryType::Output => MessageType::OutputEntry,
        EntryType::GetState => MessageType::GetStateEntry,
        EntryType::SetState => MessageType::SetStateEntry,
        EntryType::ClearState => MessageType::ClearStateEntry,
        EntryType::ClearAllState => MessageType::ClearAllStateEntry,
        EntryType::GetStateKeys => MessageType::GetStateKeysEntry,
        EntryType::GetPromise => MessageType::GetPromiseEntry,
        EntryType::PeekPromise => MessageType::PeekPromiseEntry,
        EntryType::CompletePromise => MessageType::CompletePromiseEntry,
        EntryType::Sleep => MessageType::SleepEntry,
        EntryType::Call => MessageType::CallEntry,
        EntryType::OneWayCall => MessageType::OneWayCallEntry,
        EntryType::Awakeable => MessageType::AwakeableEntry,
        EntryType::CompleteAwakeable => MessageType::CompleteAwakeableEntry,
        EntryType::Run => MessageType::RunEntry,
        EntryType::Custom => MessageType::CustomEntry(code),
    }
}

fn entry_type_of(t: MessageType) -> (r: Option<EntryType>)
    ensures
        r == spec_entry_type_of(t),
{
    match t {
        MessageType::InputEntry => Some(EntryType::Input),
        MessageType::OutputEntry => Some(EntryType::Output),
        MessageType::GetStateEntry => Some(EntryType::GetState),
        MessageType::SetStateEntry => Some(EntryType::SetState),
        MessageType::ClearStateEntry => Some(EntryType::ClearState),
        MessageType::ClearAllStateEntry => Some(EntryType::ClearAllState),
        MessageType::GetStateKeysEntry => Some(EntryType::GetStateKeys),
        MessageType::GetPromiseEntry => Some(EntryType::GetPromise),
        MessageType::PeekPromiseEntry => Some(EntryType::PeekPromise),
        MessageType::CompletePromiseEntry => Some(EntryType::CompletePromise),
        MessageType::SleepEntry => Some(EntryType::Sleep),
        MessageType::CallEntry => Some(EntryType::Call),
        MessageType::OneWayCallEntry => Some(EntryType::OneWayCall),
        MessageType::AwakeableEntry => Some(EntryType::Awakeable),
        MessageType::CompleteAwakeableEntry => Some(EntryType::CompleteAwakeable),
        MessageType::RunEntry => Some(EntryType::Run),
        MessageType::CustomEntry(_) => Some(EntryType::Custom),
        _ => None,
    }
}

fn message_type_of_entry(ty: EntryType, code: u16) -> (r: MessageType)
    ensures
        r == spec_message_type_of_entry(ty, code),
{
    match ty {
        EntryType::Input => MessageType::InputEntry,
        EntryType::Output => MessageType::OutputEntry,
        EntryType::GetState => MessageType::GetStateEntry,
        EntryType::SetState => MessageType::SetStateEntry,
        EntryType::ClearState => MessageType::ClearStateEntry,
        EntryType::ClearAllState => MessageType::ClearAllStateEntry,
        EntryType::GetStateKeys => MessageType::GetStateKeysEntry,
        EntryType::GetPromise => MessageType::GetPromiseEntry,
        EntryType::PeekPromise => MessageType::PeekPromiseEntry,
        EntryType::CompletePromise => MessageType::CompletePromiseEntry,
        EntryType::Sleep => MessageType::SleepEntry,
        EntryType::Call => MessageType::CallEntry,
        EntryType::OneWayCall => MessageType::OneWayCallEntry,
        EntryType::Awakeable => MessageType::AwakeableEntry,
        EntryType::CompleteAwakeable => MessageType::CompleteAwakeableEntry,
        EntryType::Run => MessageType::RunEntry,
        EntryType::Custom => MessageType::CustomEntry(code),
    }
}

/// The header that precedes every message: its type code, flags and the length
/// of its body.
#[derive(Clone, Copy, Debug, PartialEq, Eq, Structural)]
pub struct MessageHeader {
    pub code: u16,
    pub flags: u16,
    pub length: u32,
}

/// The flag of an entry that the runtime completed.
pub open spec fn completed_flag() -> u16 {
    0x0001
}

/// The eight bytes of a header: code, flags and length, most significant byte first.
pub open spec fn spec_header_bytes(h: MessageHeader) -> Seq<u8> {
    seq![
        (h.code / 256) as u8,
        (h.code % 256) as u8,
        (h.flags / 256) as u8,
        (h.flags % 256) as u8,
        (h.length / 0x100_0000) as u8,
        ((h.length / 0x1_0000) % 256) as u8,
        ((h.length / 256) % 256) as u8,
        (h.length % 256) as u8,
    ]
}

/// The header at the front of `s`, where `s` holds eight bytes or more.
pub open spec fn spec_read_header(s: Seq<u8>) -> Option<MessageHeader> {
    if s.len() < 8 {
        None
    } else {
        Some(MessageHeader {
            code: (s[0] * 256 + s[1]) as u16,
            flags: (s[2] * 256 + s[3]) as u16,
            length: (s[4] * 0x100_0000 + s[5] * 0x1_0000 + s[6] * 256 + s[7]) as u32,
        })
    }
}

/// A header reads back from its bytes, whatever follows them.
pub proof fn law_header_round_trip(h: MessageHeader, rest: Seq<u8>)
    ensures
        spec_read_header(spec_header_bytes(h) + rest) == Some(h),
{
    let s = spec_header_bytes(h) + rest;
    assert(s[0] == (h.code / 256) as u8);
    assert(s[1] == (h.code % 256) as u8);
    assert(s[2] == (h.flags / 256) as u8);
    assert(s[3] == (h.flags % 256) as u8);
    assert(s[4] == (h.length / 0x100_0000) as u8);
    assert(s[5] == ((h.length / 0x1_0000) % 256) as u8);
    assert(s[6] == ((h.length / 256) % 256) as u8);
    assert(s[7] == (h.length % 256) as u8);
    let l = h.length;
    assert((l / 0x100_0000) * 0x100_0000 + ((l / 0x1_0000) % 256) * 0x1_0000 + ((l / 256) % 256) * 256 + l % 256 == l)
        by (nonlinear_arith);
}

/// Appends the bytes of a header.
pub fn write_header(out: &mut Vec<u8>, h: MessageHeader)
    ensures
        final(out)@ == old(out)@ + spec_header_bytes(h),
{
    out.push((h.code / 256) as u8);
    out.push((h.code % 256) as u8);
    out.push((h.flags / 256) as u8);
    out.push((h.flags % 256) as u8);
    out.push((h.length / 0x100_0000) as u8);
    out.push(((h.length / 0x1_0000) % 256) as u8);
    out.push(((h.length / 256) % 256) as u8);
    out.push((h.length % 256) as u8);
    assert(out@ =~= old(out)@ + spec_header_bytes(h));
}

/// Reads the header at `pos` of `s`.
pub fn read_header(s: &[u8], pos: usize) -> (r: Option<MessageHeader>)
    requires
        pos <= s@.len(),
    ensures
        r == spec_read_header(s@.skip(pos as int)),
{
    if s.len() - pos < 8 {
        return None;
    }
    let code: u16 = (s[pos] as u16) * 256 + s[pos + 1] as u16;
    let flags: u16 = (s[pos + 2] as u16) * 256 + s[pos + 3] as u16;
    let length: u32 = (s[pos + 4] as u32) * 0x100_0000 + (s[pos + 5] as u32) * 0x1_0000 + (s[pos + 6] as u32) * 256
        + s[pos + 7] as u32;
    Some(MessageHeader { code, flags, length })
}

/// A frame: the header of a message with its body.
pub open spec fn spec_frame(code: u16, flags: u16, body: Seq<u8>) -> Seq<u8> {
    spec_header_bytes(MessageHeader { code, flags, length: body.len() as u32 }) + body
}

/// The next frame at the front of a buffer: its header, its body and the
/// number of bytes it takes; `None` until the buffer holds all of it.
pub open spec fn spec_next_frame(buf: Seq<u8>) -> Option<(MessageHeader, Seq<u8>, nat)> {
    match spec_read_header(buf) {
        Some(h) => if buf.len() >= 8 + h.length {
            Some((h, buf.subrange(8, 8 + h.length), (8 + h.length) as nat))
        } else {
            None
        },
        None => None,
    }
}

/// A frame, followed by anything, is read back as its header and body.
pub proof fn law_frame_round_trip(code: u16, flags: u16, body: Seq<u8>, rest: Seq<u8>)
    requires
        body.len() <= 0xffff_ffff,
    ensures
        spec_next_frame(spec_frame(code, flags, body) + rest) == Some((
            MessageHeader { code, flags, length: body.len() as u32 },
            body,
            (8 + body.len()) as nat,
        )),
{
    let h = MessageHeader { code, flags, length: body.len() as u32 };
    let s = spec_frame(code, flags, body) + rest;
    assert(s =~= spec_header_bytes(h) + (body + rest));
    law_header_round_trip(h, body + rest);
    assert(s.subrange(8, (8 + body.len()) as int) =~= body);
}


/// The message that starts an invocation.
#[derive(Clone, Debug, PartialEq, Eq)]
pub struct StartMessage {
    pub id: Vec<u8>,
    pub debug_id: String,
    pub known_entries: u32,
    pub state_map: Vec<StateEntry>,
    pub partial_state: bool,
    pub key: String,
}

/// The completion of an entry by the runtime.
#[derive(Clone, Debug, PartialEq, Eq)]
pub struct CompletionMessage {
    pub entry_index: u32,
    pub result: Option<CompletionResult>,
}

/// The acknowledgement of an entry by the runtime.
#[derive(Clone, Copy, Debug, PartialEq, Eq, Structural)]
pub struct EntryAckMessage {
    pub entry_index: u32,
}

/// An error the service reports to the runtime.
#[derive(Clone, Debug, PartialEq, Eq)]
pub struct ErrorMessage {
    pub code: u32,
    pub message: String,
    pub description: String,
    pub related_entry_index: Option<u32>,
    pub related_entry_name: Option<String>,
    pub related_entry_type: Option<u32>,
}

/// A message of the service protocol.
#[derive(Clone, Debug, PartialEq, Eq)]
pub enum ProtocolMessage {
    Start(StartMessage),
    Completion(CompletionMessage),
    Error(ErrorMessage),
    End,
    EntryAck(EntryAckMessage),
    UnparsedEntry(RawEntry),
}

/// The state entries carried by the given (repeated) state entry fields: each
/// a message with key (field 1) and value (field 2).
pub open spec fn spec_decode_state_entries(fs: Seq<FieldV>) -> Option<Seq<(Seq<u8>, Seq<u8>)>>
    decreases fs.len(),
{
    if fs.len() == 0 {
        Some(Seq::empty())
    } else {
        match (spec_decode_state_entries(fs.drop_last()), spec_bytes_of(Some(fs.last()))) {
            (Some(es), Some(b)) => match spec_read_fields(b) {
                Some(inner) => match (spec_bytes_of(spec_last_of(inner, 1, 0, 0)), spec_bytes_of(spec_last_of(inner, 2, 0, 0))) {
                    (Some(k), Some(v)) => Some(es.push((k, v))),
                    _ => None,
                },
                None => None,
            },
            _ => None,
        }
    }
}

pub open spec fn state_entries_view(s: Seq<StateEntry>) -> Seq<(Seq<u8>, Seq<u8>)> {
    s.map_values(|e: StateEntry| (e.key@, e.value@))
}

/// A start message read from its fields: id (1), debug id (2), known entries
/// (3), state entries (4), partial state flag (5) and key (6).
pub open spec fn spec_decode_start(fs: Seq<FieldV>, m: StartMessage) -> bool {
    &&& spec_bytes_of(spec_last_of(fs, 1, 0, 0)) == Some(m.id@)
    &&& spec_string_of(spec_last_of(fs, 2, 0, 0)) == Some(m.debug_id@)
    &&& spec_varint_of(spec_last_of(fs, 3, 0, 0)) matches Some(n) && m.known_entries == (n % 0x1_0000_0000) as u32
    &&& spec_decode_state_entries(spec_all_of(fs, 4)) == Some(state_entries_view(m.state_map@))
    &&& spec_varint_of(spec_last_of(fs, 5, 0, 0)) matches Some(b) && m.partial_state == (b != 0)
    &&& spec_string_of(spec_last_of(fs, 6, 0, 0)) == Some(m.key@)
}

/// The partial state flag of a start message is its field 5, a protocol
/// buffers bool: it is set exactly where the last field 5 holds a varint other
/// than zero, and clear where the message has no field 5.
pub proof fn law_partial_state_is_field_five(fs: Seq<FieldV>, m: StartMessage)
    requires
        spec_decode_start(fs, m),
    ensures
        m.partial_state <==> (spec_last_of(fs, 5, 0, 0) matches Some(f) && (f.value matches WireValueV::Varint(
            v,
        ) && v != 0)),
        spec_last_of(fs, 5, 0, 0) is None ==> !m.partial_state,
{
}

/// Whether the fields of a start message can be read.
pub open spec fn spec_start_decodable(fs: Seq<FieldV>) -> bool {
    &&& spec_bytes_of(spec_last_of(fs, 1, 0, 0)) is Some
    &&& spec_string_of(spec_last_of(fs, 2, 0, 0)) is Some
    &&& spec_varint_of(spec_last_of(fs, 3, 0, 0)) is Some
    &&& spec_decode_state_entries(spec_all_of(fs, 4)) is Some
    &&& spec_varint_of(spec_last_of(fs, 5, 0, 0)) is Some
    &&& spec_string_of(spec_last_of(fs, 6, 0, 0)) is Some
}

proof fn lemma_decode_state_entries_error(v: Seq<FieldV>, i: int)
    requires
        0 <= i < v.len(),
        spec_decode_state_entries(v.take(i + 1)) is None,
    ensures
        spec_decode_state_entries(v) is None,
    decreases v.len() - i,
{
    if i + 1 < v.len() {
        assert(v.take(i + 2).drop_last() =~= v.take(i + 1));
        lemma_decode_state_entries_error(v, i + 1);
    } else {
        assert(v.take(i + 1) =~= v);
    }
}

fn decode_state_entries(fs: &Vec<&Field>) -> (r: Option<Vec<StateEntry>>)
    ensures
        match spec_decode_state_entries(fs@.map_values(|f: &Field| f@)) {
            Some(es) => r matches Some(x) && state_entries_view(x@) == es,
            None => r is None,
        },
{
    let ghost v = fs@.map_values(|f: &Field| f@);
    let mut out: Vec<StateEntry> = Vec::new();
    let mut i: usize = 0;
    assert(v.take(0) =~= Seq::<FieldV>::empty());
    assert(state_entries_view(out@) =~= Seq::<(Seq<u8>, Seq<u8>)>::empty());
    while i < fs.len()
        invariant
            i <= fs@.len(),
            v == fs@.map_values(|f: &Field| f@),
            spec_decode_state_entries(v.take(i as int)) == Some(state_entries_view(out@)),
        decreases fs@.len() - i,
    {
        assert(v.take(i + 1).drop_last() =~= v.take(i as int));
        assert(v.take(i + 1).last() == fs@[i as int]@);
        let b = match bytes_of(Some(fs[i])) {
            Some(b) => b,
            None => {
                proof { lemma_decode_state_entries_error(v, i as int); }
                return None;
            },
        };
        let inner = match read_fields(b.as_slice()) {
            Some(inner) => inner,
            None => {
                proof { lemma_decode_state_entries_error(v, i as int); }
                return None;
            },
        };
        match (bytes_of(last_of(&inner, 1, 0, 0)), bytes_of(last_of(&inner, 2, 0, 0))) {
            (Some(key), Some(value)) => {
                let ghost before = out@;
                out.push(StateEntry { key, value });
                assert(state_entries_view(out@) =~= state_entries_view(before).push((key@, value@)));
            },
            _ => {
                proof { lemma_decode_state_entries_error(v, i as int); }
                return None;
            },
        }
        i = i + 1;
    }
    assert(v.take(fs@.len() as int) =~= v);
    Some(out)
}

/// Decodes a start message.
pub fn decode_start(b: &[u8]) -> (r: Option<StartMessage>)
    ensures
        match spec_read_fields(b@) {
            Some(fs) => match r {
                Some(m) => spec_start_decodable(fs) && spec_decode_start(fs, m),
                None => !spec_start_decodable(fs),
            },
            None => r is None,
        },
{
    let fs = match read_fields(b) {
        Some(fs) => fs,
        None => return None,
    };
    let id = bytes_of(last_of(&fs, 1, 0, 0));
    let debug_id = string_of(last_of(&fs, 2, 0, 0));
    let known = varint_of(last_of(&fs, 3, 0, 0));
    let entries = all_of(&fs, 4);
    let state_map = decode_state_entries(&entries);
    let partial = varint_of(last_of(&fs, 5, 0, 0));
    let key = string_of(last_of(&fs, 6, 0, 0));
    match (id, debug_id, known, state_map, partial, key) {
        (Some(id), Some(debug_id), Some(known), Some(state_map), Some(partial), Some(key)) => Some(
            StartMessage {
                id,
                debug_id,
                known_entries: (known % 0x1_0000_0000) as u32,
                state_map,
                partial_state: partial != 0,
                key,
            },
        ),
        _ => None,
    }
}

/// A completion message read from its fields: entry index (1) and result
/// (empty 13, value 14, failure 15).
pub open spec fn spec_decode_completion(fs: Seq<FieldV>) -> Option<(u32, Option<CompletionResultV>)> {
    match (spec_varint_of(spec_last_of(fs, 1, 0, 0)), spec_one_of(fs, 13, 14, 15)) {
        (Some(i), Some(o)) => Some(((i % 0x1_0000_0000) as u32, completion_of(o))),
        _ => None,
    }
}

/// Decodes a completion message.
pub fn decode_completion(b: &[u8]) -> (r: Option<CompletionMessage>)
    ensures
        match spec_read_fields(b@) {
            Some(fs) => match spec_decode_completion(fs) {
                Some((i, res)) => r matches Some(m) && m.entry_index == i && opt_view(m.result) == res,
                None => r is None,
            },
            None => r is None,
        },
{
    let fs = match read_fields(b) {
        Some(fs) => fs,
        None => return None,
    };
    let index = varint_of(last_of(&fs, 1, 0, 0));
    let o = one_of(&fs, 13, 14, 15);
    match (index, o) {
        (Some(i), Some(o)) => {
            let result = match o {
                OneOf::Unset => None,
                OneOf::Empty => Some(CompletionResult::Empty),
                OneOf::Value(v) => Some(CompletionResult::Success(v)),
                OneOf::Failure(f) => Some(CompletionResult::Failure(f)),
            };
            Some(CompletionMessage { entry_index: (i % 0x1_0000_0000) as u32, result })
        },
        _ => None,
    }
}

/// Decodes an entry acknowledgement: the entry index (field 1).
pub fn decode_entry_ack(b: &[u8]) -> (r: Option<EntryAckMessage>)
    ensures
        match spec_read_fields(b@) {
            Some(fs) => match spec_varint_of(spec_last_of(fs, 1, 0, 0)) {
                Some(i) => r == Some(EntryAckMessage { entry_index: (i % 0x1_0000_0000) as u32 }),
                None => r is None,
            },
            None => r is None,
        },
{
    let fs = match read_fields(b) {
        Some(fs) => fs,
        None => return None,
    };
    match varint_of(last_of(&fs, 1, 0, 0)) {
        Some(i) => Some(EntryAckMessage { entry_index: (i % 0x1_0000_0000) as u32 }),
        None => None,
    }
}

/// Why a message could not be read.
#[derive(Clone, Copy, Debug, PartialEq, Eq, Structural)]
pub enum DecodingError {
    /// The header names no known message type.
    UnknownMessageType(u16),
    /// The message type is not one the service receives.
    UnexpectedMessageType(u16),
    /// The body of the message cannot be read.
    InvalidBody(u16),
}

/// What decoding the message with header `h` and body `body` gives: starts,
/// completions, acknowledgements, ends and errors are read; entries are kept as
/// raw entries (completed where the header's completed flag is set); a code
/// that names no message type, a message the service does not receive, or a
/// body that cannot be read, is an error.
pub open spec fn spec_decode_result(h: MessageHeader, body: Seq<u8>, r: Result<ProtocolMessage, DecodingError>) -> bool {
    let invalid = Err::<ProtocolMessage, DecodingError>(DecodingError::InvalidBody(h.code));
    match spec_message_type_of(h.code) {
        None => r == Err::<ProtocolMessage, DecodingError>(DecodingError::UnknownMessageType(h.code)),
        Some(t) => match spec_entry_type_of(t) {
            Some(ty) => r matches Ok(ProtocolMessage::UnparsedEntry(e)) && e.header.ty == ty
                && e.header.completed == (h.flags % 2 == 1) && e.header.code == h.code && e.entry@ == body,
            None => match t {
                MessageType::End => r == Ok::<ProtocolMessage, DecodingError>(ProtocolMessage::End),
                MessageType::Completion => match spec_read_fields(body) {
                    Some(fs) => match spec_decode_completion(fs) {
                        Some((i, res)) => r matches Ok(ProtocolMessage::Completion(m)) && m.entry_index == i
                            && opt_view(m.result) == res,
                        None => r == invalid,
                    },
                    None => r == invalid,
                },
                MessageType::Start => match spec_read_fields(body) {
                    Some(fs) => if spec_start_decodable(fs) {
                        r matches Ok(ProtocolMessage::Start(m)) && spec_decode_start(fs, m)
                    } else {
                        r == invalid
                    },
                    None => r == invalid,
                },
                MessageType::EntryAck => match spec_read_fields(body) {
                    Some(fs) => match spec_varint_of(spec_last_of(fs, 1, 0, 0)) {
                        Some(i) => r == Ok::<ProtocolMessage, DecodingError>(
                            ProtocolMessage::EntryAck(EntryAckMessage { entry_index: low_u32(i) }),
                        ),
                        None => r == invalid,
                    },
                    None => r == invalid,
                },
                MessageType::Error => match spec_read_fields(body) {
                    Some(fs) => if spec_error_decodable(fs) {
                        r matches Ok(ProtocolMessage::Error(m)) && spec_decode_error(fs, m)
                    } else {
                        r == invalid
                    },
                    None => r == invalid,
                },
                _ => r == Err::<ProtocolMessage, DecodingError>(DecodingError::UnexpectedMessageType(h.code)),
            },
        },
    }
}

/// Decodes the message with header `h` and body `body`.
pub fn decode_message(h: MessageHeader, body: Vec<u8>) -> (r: Result<ProtocolMessage, DecodingError>)
    ensures
        spec_decode_result(h, body@, r),
{
    let t = match MessageType::from_code(h.code) {
        Some(t) => t,
        None => return Err(DecodingError::UnknownMessageType(h.code)),
    };
    if let Some(ty) = entry_type_of(t) {
        return Ok(ProtocolMessage::UnparsedEntry(RawEntry {
            header: EntryHeader { ty, completed: h.flags % 2 == 1, code: h.code },
            entry: body,
        }));
    }
    match t {
        MessageType::Start => match decode_start(body.as_slice()) {
            Some(m) => Ok(ProtocolMessage::Start(m)),
            None => Err(DecodingError::InvalidBody(h.code)),
        },
        MessageType::Completion => match decode_completion(body.as_slice()) {
            Some(m) => Ok(ProtocolMessage::Completion(m)),
            None => Err(DecodingError::InvalidBody(h.code)),
        },
        MessageType::EntryAck => match decode_entry_ack(body.as_slice()) {
            Some(m) => Ok(ProtocolMessage::EntryAck(m)),
            None => Err(DecodingError::InvalidBody(h.code)),
        },
        MessageType::End => Ok(ProtocolMessage::End),
        MessageType::Error => match decode_error(body.as_slice()) {
            Some(m) => Ok(ProtocolMessage::Error(m)),
            None => Err(DecodingError::InvalidBody(h.code)),
        },
        _ => Err(DecodingError::UnexpectedMessageType(h.code)),
    }
}

/// An optional varint field: `Some(None)` where absent.
pub open spec fn spec_opt_varint_of(f: Option<FieldV>) -> Option<Option<nat>> {
    match f {
        None => Some(None),
        Some(g) => match g.value {
            WireValueV::Varint(v) => Some(Some(v)),
            _ => None,
        },
    }
}

/// An optional string field: `Some(None)` where absent.
pub open spec fn spec_opt_string_of(f: Option<FieldV>) -> Option<Option<Seq<char>>> {
    match f {
        None => Some(None),
        Some(g) => match spec_string_of(Some(g)) {
            Some(s) => Some(Some(s)),
            None => None,
        },
    }
}

/// A varint taken as a `u32`, its low 32 bits.
pub open spec fn low_u32(v: nat) -> u32 {
    (v % 0x1_0000_0000) as u32
}

pub open spec fn opt_low_u32(o: Option<nat>) -> Option<u32> {
    match o {
        Some(v) => Some(low_u32(v)),
        None => None,
    }
}

pub open spec fn opt_string_view(o: Option<String>) -> Option<Seq<char>> {
    match o {
        Some(s) => Some(s@),
        None => None,
    }
}

/// Whether the fields of an error message can be read.
pub open spec fn spec_error_decodable(fs: Seq<FieldV>) -> bool {
    &&& spec_varint_of(spec_last_of(fs, 1, 0, 0)) is Some
    &&& spec_string_of(spec_last_of(fs, 2, 0, 0)) is Some
    &&& spec_string_of(spec_last_of(fs, 3, 0, 0)) is Some
    &&& spec_opt_varint_of(spec_last_of(fs, 4, 0, 0)) is Some
    &&& spec_opt_string_of(spec_last_of(fs, 5, 0, 0)) is Some
    &&& spec_opt_varint_of(spec_last_of(fs, 6, 0, 0)) is Some
}

/// An error message read from its fields: code (1), message (2), description
/// (3), and the optional related entry index (4), name (5) and type (6).
pub open spec fn spec_decode_error(fs: Seq<FieldV>, m: ErrorMessage) -> bool {
    &&& spec_varint_of(spec_last_of(fs, 1, 0, 0)) matches Some(c) && m.code == low_u32(c)
    &&& spec_string_of(spec_last_of(fs, 2, 0, 0)) == Some(m.message@)
    &&& spec_string_of(spec_last_of(fs, 3, 0, 0)) == Some(m.description@)
    &&& spec_opt_varint_of(spec_last_of(fs, 4, 0, 0)) matches Some(i) && m.related_entry_index == opt_low_u32(i)
    &&& spec_opt_string_of(spec_last_of(fs, 5, 0, 0)) == Some(opt_string_view(m.related_entry_name))
    &&& spec_opt_varint_of(spec_last_of(fs, 6, 0, 0)) matches Some(t) && m.related_entry_type == opt_low_u32(t)
}

fn opt_varint_of(f: Option<&Field>) -> (r: Option<Option<u64>>)
    ensures
        match f {
            None => r == Some(None::<u64>),
            Some(g) => match g.value {
                WireValue::Varint(v) => r == Some(Some(v)),
                _ => r is None,
            },
        },
{
    match f {
        None => Some(None),
        Some(g) => match &g.value {
            WireValue::Varint(v) => Some(Some(*v)),
            _ => None,
        },
    }
}

/// Decodes an error message: code (1), message (2), description (3), and the
/// optional related entry index (4), name (5) and type (6).
pub fn decode_error(b: &[u8]) -> (r: Option<ErrorMessage>)
    ensures
        match spec_read_fields(b@) {
            Some(fs) => match r {
                Some(m) => spec_error_decodable(fs) && spec_decode_error(fs, m),
                None => !spec_error_decodable(fs),
            },
            None => r is None,
        },
{
    let fs = match read_fields(b) {
        Some(fs) => fs,
        None => return None,
    };
    let code = varint_of(last_of(&fs, 1, 0, 0));
    let message = string_of(last_of(&fs, 2, 0, 0));
    let description = string_of(last_of(&fs, 3, 0, 0));
    let index = opt_varint_of(last_of(&fs, 4, 0, 0));
    let name_field = last_of(&fs, 5, 0, 0);
    let name = match name_field {
        None => Some(None),
        Some(f) => match string_of(Some(f)) {
            Some(s) => Some(Some(s)),
            None => None,
        },
    };
    let ty = opt_varint_of(last_of(&fs, 6, 0, 0));
    match (code, message, description, index, name, ty) {
        (Some(code), Some(message), Some(description), Some(index), Some(name), Some(ty)) => Some(ErrorMessage {
            code: (code % 0x1_0000_0000) as u32,
            message,
            description,
            related_entry_index: match index {
                Some(i) => Some((i % 0x1_0000_0000) as u32),
                None => None,
            },
            related_entry_name: name,
            related_entry_type: match ty {
                Some(t) => Some((t % 0x1_0000_0000) as u32),
                None => None,
            },
        }),
        _ => None,
    }
}


/// Writes a frame: the header for `code`, `flags` and the body's length, then
/// the body.
pub fn encode_frame(code: u16, flags: u16, body: &[u8]) -> (r: Vec<u8>)
    requires
        body@.len() <= 0xffff_ffff,
    ensures
        r@ == spec_frame(code, flags, body@),
{
    let mut out: Vec<u8> = Vec::new();
    write_header(&mut out, MessageHeader { code, flags, length: body.len() as u32 });
    append_bytes(&mut out, body);
    assert(out@ =~= spec_frame(code, flags, body@));
    out
}

/// The code of the message that carries an entry with this header.
pub open spec fn spec_entry_code(h: EntryHeader) -> u16 {
    spec_message_type_code(spec_message_type_of_entry(h.ty, h.code))
}

/// The flags of the message that carries an entry: the completed flag for a
/// completed entry of a kind the runtime completes.
pub open spec fn spec_entry_flags(h: EntryHeader) -> u16 {
    if h.spec_is_completed() == Some(true) {
        completed_flag()
    } else {
        0
    }
}

/// The frame of a raw entry.
pub open spec fn spec_entry_frame(e: RawEntry) -> Seq<u8> {
    spec_frame(spec_entry_code(e.header), spec_entry_flags(e.header), e.entry@)
}

/// A header as the decoder makes it: its code is that of the entry's message
/// (a custom entry's code is from `0xFC00` on), and only kinds the runtime
/// completes are marked completed.
pub open spec fn valid_entry_header(h: EntryHeader) -> bool {
    &&& h.code == spec_entry_code(h)
    &&& (h.ty == EntryType::Custom ==> h.code >= 0xFC00)
    &&& (h.completed ==> h.ty.spec_is_completable())
}

/// Writes the frame of a raw entry; `None` where its message is too long for
/// the 32-bit length of a header.
pub fn encode_raw_entry(e: &RawEntry) -> (r: Option<Vec<u8>>)
    ensures
        e.entry@.len() <= 0xffff_ffff ==> (r matches Some(b) && b@ == spec_entry_frame(*e)),
        e.entry@.len() > 0xffff_ffff ==> r is None,
{
    if e.entry.len() > 0xffff_ffff {
        return None;
    }
    let ty = message_type_of_entry(e.header.ty, e.header.code);
    let completed = e.header.is_completed();
    let flags: u16 = match completed {
        Some(true) => 0x0001,
        _ => 0,
    };
    Some(encode_frame(ty.to_code(), flags, e.entry.as_slice()))
}

/// The frame of the end message.
pub open spec fn spec_end_frame() -> Seq<u8> {
    spec_frame(0x0005, 0, Seq::empty())
}

/// Writes the end message.
pub fn encode_end() -> (r: Vec<u8>)
    ensures
        r@ == spec_end_frame(),
{
    let body: Vec<u8> = Vec::new();
    encode_frame(0x0005, 0, body.as_slice())
}

/// An optional varint field: written whenever it is set, zero included.
pub open spec fn opt_varint_field(n: nat, v: Option<u32>) -> Seq<FieldV> {
    match v {
        Some(x) => seq![FieldV { number: n, value: WireValueV::Varint(x as nat) }],
        None => Seq::empty(),
    }
}

/// An optional string field: written whenever it is set, empty text included.
pub open spec fn opt_string_field(n: nat, v: Option<Seq<char>>) -> Seq<FieldV> {
    match v {
        Some(x) => seq![FieldV { number: n, value: WireValueV::Bytes(vstd::utf8::encode_utf8(x)) }],
        None => Seq::empty(),
    }
}

/// The fields of an error message.
pub open spec fn spec_error_fields(m: ErrorMessage) -> Seq<FieldV> {
    crate::codec::varint_field(1, m.code as nat) + crate::codec::string_field(2, m.message@)
        + crate::codec::string_field(3, m.description@) + opt_varint_field(4, m.related_entry_index)
        + opt_string_field(5, opt_string_view(m.related_entry_name)) + opt_varint_field(6, m.related_entry_type)
}

/// The frame of an error message.
pub open spec fn spec_error_frame(m: ErrorMessage) -> Seq<u8> {
    spec_frame(0x0003, 0, spec_encode_fields(spec_error_fields(m)))
}

fn push_opt_varint(fs: &mut Vec<Field>, n: u32, v: Option<u32>)
    requires
        valid_fields(crate::codec::fields_view(old(fs)@)),
        1 <= n < 0x2000_0000,
    ensures
        crate::codec::fields_view(final(fs)@) == crate::codec::fields_view(old(fs)@) + opt_varint_field(n as nat, v),
        valid_fields(crate::codec::fields_view(final(fs)@)),
{
    let ghost before = crate::codec::fields_view(fs@);
    match v {
        Some(x) => {
            crate::codec::push_field(fs, Field { number: n, value: WireValue::Varint(x as u64) });
            assert(crate::codec::fields_view(fs@) =~= before + opt_varint_field(n as nat, v));
        },
        None => {
            assert(before + opt_varint_field(n as nat, v) =~= before);
        },
    }
}

fn push_opt_string(fs: &mut Vec<Field>, n: u32, v: &Option<String>)
    requires
        valid_fields(crate::codec::fields_view(old(fs)@)),
        1 <= n < 0x2000_0000,
    ensures
        crate::codec::fields_view(final(fs)@) == crate::codec::fields_view(old(fs)@) + opt_string_field(
            n as nat,
            opt_string_view(*v),
        ),
        valid_fields(crate::codec::fields_view(final(fs)@)),
{
    let ghost before = crate::codec::fields_view(fs@);
    match v {
        Some(x) => {
            let b = crate::codec::string_bytes(x);
            crate::codec::push_always_bytes_field(fs, n, b);
            assert(crate::codec::fields_view(fs@) =~= before + opt_string_field(n as nat, opt_string_view(*v)));
        },
        None => {
            assert(before + opt_string_field(n as nat, opt_string_view(*v)) =~= before);
        },
    }
}

/// Writes an error message; `None` where it is too long for a frame.
pub fn encode_error(m: &ErrorMessage) -> (r: Option<Vec<u8>>)
    ensures
        spec_encode_fields(spec_error_fields(*m)).len() <= 0xffff_ffff ==> (r matches Some(b) && b@ == spec_error_frame(*m)),
        spec_encode_fields(spec_error_fields(*m)).len() > 0xffff_ffff ==> r is None,
{
    let mut fs: Vec<Field> = Vec::new();
    assert(crate::codec::fields_view(fs@) =~= Seq::<FieldV>::empty());
    crate::codec::push_varint_field(&mut fs, 1, m.code as u64);
    crate::codec::push_string_field(&mut fs, 2, &m.message);
    crate::codec::push_string_field(&mut fs, 3, &m.description);
    push_opt_varint(&mut fs, 4, m.related_entry_index);
    push_opt_string(&mut fs, 5, &m.related_entry_name);
    push_opt_varint(&mut fs, 6, m.related_entry_type);
    assert(crate::codec::fields_view(fs@) =~= spec_error_fields(*m));
    let body = encode_fields(&fs);
    if body.len() > 0xffff_ffff {
        return None;
    }
    Some(encode_frame(0x0003, 0, body.as_slice()))
}

/// Reads frames out of the bytes of a stream as they arrive.
pub struct FrameDecoder {
    buf: Vec<u8>,
}

impl View for FrameDecoder {
    type V = Seq<u8>;

    /// The bytes received and not yet consumed.
    closed spec fn view(&self) -> Seq<u8> {
        self.buf@
    }
}

impl FrameDecoder {
    pub fn new() -> (r: Self)
        ensures
            r@ == Seq::<u8>::empty(),
    {
        FrameDecoder { buf: Vec::new() }
    }

    /// Adds the bytes that arrived.
    pub fn push(&mut self, data: &[u8])
        ensures
            final(self)@ == old(self)@ + data@,
    {
        append_bytes(&mut self.buf, data);
    }

    /// Takes the next message where its frame arrived whole: its header and
    /// what decoding it gives. `Ok(None)` while the frame is incomplete.
    pub fn consume_next(&mut self) -> (r: Result<Option<(MessageHeader, ProtocolMessage)>, DecodingError>)
        ensures
            match spec_next_frame(old(self)@) {
                None => r == Ok::<Option<(MessageHeader, ProtocolMessage)>, DecodingError>(None) && final(self)@ == old(self)@,
                Some((h, body, n)) => final(self)@ == old(self)@.skip(n as int) && match r {
                    Ok(Some((rh, m))) => rh == h && spec_decode_result(h, body, Ok(m)),
                    Ok(None) => false,
                    Err(e) => spec_decode_result(h, body, Err(e)),
                },
            },
    {
        let h = match read_header(self.buf.as_slice(), 0) {
            Some(h) => h,
            None => {
                proof { assert(old(self)@.skip(0) =~= old(self)@); }
                return Ok(None);
            },
        };
        proof { assert(old(self)@.skip(0) =~= old(self)@); }
        let total: u64 = 8 + h.length as u64;
        if (self.buf.len() as u64) < total {
            return Ok(None);
        }
        let end = total as usize;
        let body = copy_range(self.buf.as_slice(), 8, end);
        let rest = copy_range(self.buf.as_slice(), end, self.buf.len());
        proof {
            assert(rest@ =~= old(self)@.skip(end as int));
        }
        self.buf = rest;
        match decode_message(h, body) {
            Ok(m) => Ok(Some((h, m))),
            Err(e) => Err(e),
        }
    }
}

/// What the decoder reads back of an entry's frame is that entry: the frame
/// is read whole, whatever follows it, and decodes to the same raw entry.
pub proof fn law_entry_frame_round_trip(e: RawEntry, rest: Seq<u8>, r: Result<ProtocolMessage, DecodingError>)
    requires
        valid_entry_header(e.header),
        e.entry@.len() <= 0xffff_ffff,
    ensures
        spec_next_frame(spec_entry_frame(e) + rest) matches Some((h, body, n)) && body == e.entry@ && n == 8
            + e.entry@.len() && (spec_decode_result(h, body, r) ==> (r matches Ok(ProtocolMessage::UnparsedEntry(x))
            && x.header == e.header && x.entry@ == e.entry@)),
{
    law_frame_round_trip(spec_entry_code(e.header), spec_entry_flags(e.header), e.entry@, rest);
}

/// The end message is read back as the end message.
pub proof fn law_end_frame_round_trip(rest: Seq<u8>, r: Result<ProtocolMessage, DecodingError>)
    ensures
        spec_next_frame(spec_end_frame() + rest) matches Some((h, body, n)) && n == 8 && (spec_decode_result(h, body, r)
            ==> r == Ok::<ProtocolMessage, DecodingError>(ProtocolMessage::End)),
{
    law_frame_round_trip(0x0005, 0, Seq::empty(), rest);
}

/// The code of the message that carries an entry of kind `ty` (a custom entry
/// with code 0).
pub fn message_type_code_of_entry(ty: EntryType) -> (r: u16)
    ensures
        r == spec_message_type_code(spec_message_type_of_entry(ty, 0)),
{
    message_type_of_entry(ty, 0).to_code()
}

} // verus!
