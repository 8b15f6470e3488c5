//! The state machine of an invocation: it takes the entries the user code makes
//! and the messages the runtime sends, keeps the journal, and decides which
//! messages go to the runtime.

use vstd::prelude::*;
use crate::entry::{
    Entry, EntryV, EntryType, EntryResult, EntryResultV, Failure, GetStateKeysResult, CompletionResult,
    InvokeRequest, InvokeRequestV, opt_view, bytes_list_view,
};
use crate::codec::{
    spec_serialize_entry, serialize_entry, copy_all, spec_deserialize, wf_bytes, wf_str, lemma_entry_round_trip,
    lemma_bytes_field_valid, lemma_string_field_valid, bytes_field, string_field, spec_entry_fields, lemma_valid_fields_append,
};
use crate::invocation::{Invocation, InvocationV};
use crate::journal::{
    Journal, JournalV, NewExecutionState, spec_new_entry, spec_incremented, spec_resolve, spec_completion_readable,
    opt_bytes_view,
};
use crate::logger::ReplayFilter;
use crate::message::{
    MessageType, ProtocolMessage, ErrorMessage, spec_frame, spec_message_type_code, spec_message_type_of_entry,
    encode_frame, encode_end, encode_error, spec_end_frame, spec_error_frame, spec_error_fields,
};
use crate::store::LocalStateStore;
use crate::wire::{spec_encode_fields, spec_encode_field, spec_varint, FieldV, WireValueV};

verus! {

/// The entry as it is written to the runtime: the entries the runtime
/// completes go without a result (but for the state keys), and calls go
/// without headers.
pub open spec fn spec_outgoing_entry(e: EntryV) -> EntryV {
    match e {
        EntryV::GetState { key, .. } => EntryV::GetState { key, value: None },
        EntryV::GetPromise { key, .. } => EntryV::GetPromise { key, value: None },
        EntryV::PeekPromise { key, .. } => EntryV::PeekPromise { key, value: None },
        EntryV::CompletePromise { key, completion, .. } => EntryV::CompletePromise { key, completion, value: None },
        EntryV::Sleep { wake_up_time, .. } => EntryV::Sleep { wake_up_time, result: None },
        EntryV::Call { request, .. } => EntryV::Call {
            request: InvokeRequestV { headers: Seq::empty(), ..request },
            result: None,
        },
        EntryV::OneWayCall { request, invoke_time } => EntryV::OneWayCall {
            request: InvokeRequestV { headers: Seq::empty(), ..request },
            invoke_time,
        },
        EntryV::Awakeable { .. } => EntryV::Awakeable { result: None },
        _ => e,
    }
}

/// The code of the message an entry is written with: clearing all state goes
/// with the code of clearing one key, a custom entry with `0xFC00`.
pub open spec fn spec_outgoing_code(e: EntryV) -> u16 {
    match e {
        EntryV::ClearAllState => 0x0802,
        EntryV::Custom { .. } => 0xFC00,
        _ => spec_message_type_code(spec_message_type_of_entry(e.entry_type(), 0)),
    }
}

/// The body of the message an entry is written with under the name `name`.
pub open spec fn spec_outgoing_body(e: EntryV, name: Seq<char>) -> Seq<u8> {
    spec_serialize_entry(spec_outgoing_entry(e), name)
}

/// The frame an entry is written with (never marked completed).
pub open spec fn spec_outgoing_frame(e: EntryV, name: Seq<char>) -> Seq<u8> {
    spec_frame(spec_outgoing_code(e), 0, spec_outgoing_body(e, name))
}

/// Whether the machine writes a message in journal state `j`: not while
/// replaying, but for the very first entry.
pub open spec fn spec_may_send(j: JournalV) -> bool {
    j.state != NewExecutionState::REPLAYING || j.index == 0
}

/// Whether a new entry, whose result is not known, is written to the runtime:
/// the input never is, nor an output the replay already held.
pub open spec fn spec_writes_entry(e: EntryV, j: JournalV) -> bool {
    match e {
        EntryV::Input { .. } => false,
        EntryV::Output { .. } => !j.output_replayed,
        _ => true,
    }
}

/// The outbox after `frame` is offered in journal state `j`: it is added where
/// the machine is connected, may send, and the frame fits its header.
pub open spec fn spec_offer(outbox: Seq<Seq<u8>>, connected: bool, j: JournalV, body_len: nat, frame: Seq<u8>) -> Seq<Seq<u8>> {
    if connected && spec_may_send(j) && body_len <= 0xffff_ffff {
        outbox.push(frame)
    } else {
        outbox
    }
}

/// The model of a state machine.
pub struct StateMachineV {
    pub journal: JournalV,
    pub closed: bool,
    pub store: LocalStateStore,
    pub connected: bool,
    pub abort_on_replay: bool,
    pub abort_armed: bool,
    pub input: Option<Seq<u8>>,
    pub span_replay_flag: bool,
    pub outbox: Seq<Seq<u8>>,
    pub input_channel_closed: bool,
    pub logger: ReplayFilter,
}

/// The state machine of one invocation.
pub struct StateMachine {
    journal: Journal,
    machine_closed: bool,
    input_channel_closed: bool,
    local_state_store: LocalStateStore,
    logger: ReplayFilter,
    connected: bool,
    abort_on_replay: bool,
    abort_armed: bool,
    input: Option<Vec<u8>>,
    span_replay_flag: bool,
    outbox: Vec<Vec<u8>>,
}

pub open spec fn outbox_view(o: Seq<Vec<u8>>) -> Seq<Seq<u8>> {
    o.map_values(|b: Vec<u8>| b@)
}

impl View for StateMachine {
    type V = StateMachineV;

    closed spec fn view(&self) -> StateMachineV {
        StateMachineV {
            journal: self.journal@,
            closed: self.machine_closed,
            store: self.local_state_store,
            connected: self.connected,
            abort_on_replay: self.abort_on_replay,
            abort_armed: self.abort_armed,
            input: opt_bytes_view(self.input),
            span_replay_flag: self.span_replay_flag,
            outbox: outbox_view(self.outbox@),
            input_channel_closed: self.input_channel_closed,
            logger: self.logger,
        }
    }
}

/// The machine with its journal and outbox replaced.
pub open spec fn with_journal(v: StateMachineV, j: JournalV, outbox: Seq<Seq<u8>>) -> StateMachineV {
    StateMachineV { journal: j, outbox, ..v }
}

pub open spec fn opt_string_view(o: Option<String>) -> Option<Seq<char>> {
    match o {
        Some(s) => Some(s@),
        None => None,
    }
}

/// An entry of the user code taken by the machine `v`, named `name`: with the
/// index of an earlier entry it is resolved; otherwise it is a new entry, which
/// the journal takes, and which is written to the runtime where its result is
/// not known. The machine it leaves, the entry's index and its result.
pub open spec fn spec_handle_user_code(
    v: StateMachineV,
    name: Option<Seq<char>>,
    entry_index: Option<u32>,
    message: Entry,
) -> (StateMachineV, u32, Option<Seq<u8>>) {
    match entry_index {
        Some(i) => {
            let (j, res) = spec_resolve(v.journal, i);
            (with_journal(v, j, v.outbox), i, res)
        },
        None => {
            let (j, res) = spec_new_entry(spec_incremented(v.journal), message);
            let nm = match name {
                Some(n) => n,
                None => Seq::<char>::empty(),
            };
            let outbox = if res is None && spec_writes_entry(message@, j) {
                spec_offer(v.outbox, v.connected, j, spec_outgoing_body(message@, nm).len(), spec_outgoing_frame(message@, nm))
            } else {
                v.outbox
            };
            (with_journal(v, j, outbox), j.index, res)
        },
    }
}

impl StateMachine {
    pub closed spec fn wf(&self) -> bool {
        self.local_state_store.wf()
    }

    /// A machine for an invocation that holds its input entry and its state;
    /// `connected` says whether there is a runtime to write to.
    pub fn new(abort_on_replay: bool, connected: bool, invocation: Invocation) -> (r: Self)
        requires
            invocation@.replay.contains_key(0),
            invocation@.store matches Some(s) && s.wf(),
        ensures
            r.wf(),
            r@.journal.state == NewExecutionState::REPLAYING,
            r@.journal.index == 0,
            r@.journal.pending.dom() == Set::<u32>::empty(),
            r@.journal.waiting == Set::<u32>::empty(),
            !r@.journal.output_replayed,
            crate::journal::spec_invocation_of(r@.journal) == (InvocationV { store: None, ..invocation@ }),
            !r@.closed,
            !r@.input_channel_closed,
            r@.logger == (ReplayFilter {}),
            Some(r@.store) == invocation@.store,
            r@.connected == connected,
            r@.abort_on_replay == abort_on_replay,
            !r@.abort_armed,
            r@.input == invocation@.value,
            r@.span_replay_flag,
            r@.outbox == Seq::<Seq<u8>>::empty(),
    {
        let mut invocation = invocation;
        let input = invocation.input_value();
        let store = match invocation.take_local_state_store() {
            Some(s) => s,
            None => vstd::pervasive::unreached(),
        };
        let m = StateMachine {
            journal: Journal::new(invocation),
            machine_closed: false,
            input_channel_closed: false,
            local_state_store: store,
            logger: ReplayFilter::new(),
            connected,
            abort_on_replay,
            abort_armed: false,
            input,
            span_replay_flag: true,
            outbox: Vec::new(),
        };
        assert(outbox_view(m.outbox@) =~= Seq::<Seq<u8>>::empty());
        m
    }

    /// The invocation the machine runs.
    pub fn invocation(&self) -> (r: &Invocation)
        ensures
            r@ == crate::journal::spec_invocation_of(self@.journal),
    {
        self.journal.invocation()
    }

    /// The input of the invocation.
    pub fn input(&self) -> (r: Option<Vec<u8>>)
        ensures
            opt_bytes_view(r) == self@.input,
    {
        match &self.input {
            Some(v) => Some(copy_all(v.as_slice())),
            None => None,
        }
    }

    /// The local state store.
    pub fn local_state_store(&self) -> (r: &LocalStateStore)
        ensures
            *r == self@.store,
    {
        &self.local_state_store
    }

    /// Records a value read from the runtime in the local state store.
    pub fn add_state(&mut self, key: String, value: Vec<u8>)
        requires
            old(self).wf(),
        ensures
            final(self).wf(),
            final(self)@ == (StateMachineV { store: final(self)@.store, ..old(self)@ }),
            final(self)@.store.spec_is_partial() == old(self)@.store.spec_is_partial(),
            final(self)@.store.spec_state() == old(self)@.store.spec_state().insert(key@, Some(value@)),
    {
        self.local_state_store.add(key, value);
    }

    /// Sets a key in the local state store; returns the entry that records it.
    pub fn set_state(&mut self, key: String, value: Vec<u8>) -> (r: Entry)
        requires
            old(self).wf(),
        ensures
            final(self).wf(),
            final(self)@ == (StateMachineV { store: final(self)@.store, ..old(self)@ }),
            final(self)@.store.spec_is_partial() == old(self)@.store.spec_is_partial(),
            final(self)@.store.spec_state() == old(self)@.store.spec_state().insert(key@, Some(value@)),
            r@ == (EntryV::SetState { key: vstd::utf8::encode_utf8(key@), value: value@ }),
    {
        self.local_state_store.set(key, value)
    }

    /// Clears a key in the local state store; returns the entry that records it.
    pub fn clear_state(&mut self, key: String) -> (r: Entry)
        requires
            old(self).wf(),
        ensures
            final(self).wf(),
            final(self)@ == (StateMachineV { store: final(self)@.store, ..old(self)@ }),
            final(self)@.store.spec_is_partial() == old(self)@.store.spec_is_partial(),
            final(self)@.store.spec_state() == old(self)@.store.spec_state().insert(key@, None),
            r@ == (EntryV::ClearState { key: vstd::utf8::encode_utf8(key@) }),
    {
        self.local_state_store.clear(key)
    }

    /// Clears the local state store.
    pub fn clear_all_state(&mut self)
        ensures
            final(self).wf(),
            final(self)@ == (StateMachineV { store: final(self)@.store, ..old(self)@ }),
            final(self)@.store.spec_is_partial() == old(self)@.store.spec_is_partial(),
            final(self)@.store.spec_state() == Map::<Seq<char>, Option<Seq<u8>>>::empty(),
    {
        self.local_state_store.clear_all();
    }

    /// Lets the invocation be aborted: from now on a replayed entry that has no
    /// result may abort it.
    pub fn arm_abort(&mut self)
        ensures
            final(self)@ == (StateMachineV { abort_armed: true, ..old(self)@ }),
    {
        self.abort_armed = true;
    }

    /// Whether to abort the invocation now: where the machine aborts on replay
    /// and abortion is armed; it is then disarmed.
    pub fn abort_on_replay(&mut self) -> (r: bool)
        ensures
            r == (old(self)@.abort_on_replay && old(self)@.abort_armed),
            final(self)@ == (StateMachineV { abort_armed: old(self)@.abort_armed && !r, ..old(self)@ }),
    {
        if self.abort_on_replay && self.abort_armed {
            self.abort_armed = false;
            true
        } else {
            false
        }
    }

    /// The messages to write to the runtime, in order; the outbox is emptied.
    pub fn take_outgoing(&mut self) -> (r: Vec<Vec<u8>>)
        ensures
            outbox_view(r@) == old(self)@.outbox,
            final(self)@ == (StateMachineV { outbox: Seq::empty(), ..old(self)@ }),
    {
        let mut out: Vec<Vec<u8>> = Vec::new();
        std::mem::swap(&mut out, &mut self.outbox);
        assert(outbox_view(self.outbox@) =~= Seq::<Seq<u8>>::empty());
        out
    }

    /// Offers a frame: it is kept for the runtime as `spec_offer` says.
    fn send(&mut self, frame: Option<Vec<u8>>, ghost_len: Ghost<nat>, ghost_frame: Ghost<Seq<u8>>)
        requires
            (ghost_len@ <= 0xffff_ffff) == (frame is Some),
            frame matches Some(f) ==> f@ == ghost_frame@,
        ensures
            final(self)@ == (StateMachineV {
                outbox: spec_offer(old(self)@.outbox, old(self)@.connected, old(self)@.journal, ghost_len@, ghost_frame@),
                ..old(self)@
            }),
    {
        if !self.journal.is_replaying() || self.journal.get_user_code_journal_index() == 0 {
            if self.connected {
                if let Some(f) = frame {
                    let ghost before = outbox_view(self.outbox@);
                    self.outbox.push(f);
                    assert(outbox_view(self.outbox@) =~= before.push(ghost_frame@));
                }
            }
        }
    }

    /// Takes an entry of the user code. With the index of an entry the user code
    /// made before, resolves it. Otherwise the entry is new: the journal takes
    /// it, and where its result is not known it is written to the runtime.
    /// Returns the entry's index and its result, where known.
    pub fn handle_user_code_message(
        &mut self,
        entry_name: Option<String>,
        entry_index: Option<u32>,
        message: Entry,
    ) -> (r: (u32, Option<Vec<u8>>))
        requires
            entry_index is None ==> old(self)@.journal.index < u32::MAX,
        ensures
            (final(self)@, r.0, opt_bytes_view(r.1)) == spec_handle_user_code(
                old(self)@,
                opt_string_view(entry_name),
                entry_index,
                message,
            ),
    {
        if let Some(entry_index) = entry_index {
            let result = self.journal.resolve_result(entry_index);
            return (entry_index, result);
        }
        let name = match entry_name {
            Some(n) => n,
            None => String::new(),
        };
        let writes = match &message {
            Entry::Input { .. } => false,
            _ => true,
        };
        let is_output = match &message {
            Entry::Output { .. } => true,
            _ => false,
        };
        let frame = if writes {
            outgoing_frame(&message, &name)
        } else {
            None
        };
        let ghost e = message@;
        let next = self.journal.get_user_code_journal_index() + 1;
        let result = self.journal.handle_user_code_message(next, message);
        let entry_index = self.journal.get_user_code_journal_index();
        if result.is_none() && writes && !(is_output && self.journal.is_output_replayed()) {
            self.send(frame, Ghost(spec_outgoing_body(e, name@).len()), Ghost(spec_outgoing_frame(e, name@)));
        }
        (entry_index, result)
    }

    /// Records the order in which a combinator's futures completed, as a new
    /// entry kept to await its acknowledgement; a custom entry is written to the
    /// runtime. With the index of a recorded order, resolves it instead.
    pub fn write_combinator_order(&mut self, entry_index: Option<u32>, message: Entry) -> (r: (u32, Option<Vec<u8>>))
        requires
            entry_index is None ==> old(self)@.journal.index < u32::MAX,
        ensures
            entry_index matches Some(i) ==> {
                &&& r.0 == i
                &&& (final(self)@.journal, opt_bytes_view(r.1)) == spec_resolve(old(self)@.journal, i)
                &&& final(self)@ == with_journal(old(self)@, final(self)@.journal, old(self)@.outbox)
            },
            entry_index is None ==> {
                let j1 = spec_incremented(old(self)@.journal);
                let j = JournalV {
                    pending: j1.pending.insert(j1.index, message),
                    waiting: j1.waiting.insert(j1.index),
                    ..j1
                };
                &&& final(self)@.journal == j
                &&& r.0 == j.index
                &&& r.1 is None
                &&& final(self)@.outbox == match message@ {
                    EntryV::Custom { value } => spec_offer(
                        old(self)@.outbox,
                        old(self)@.connected,
                        j,
                        value.len(),
                        spec_frame(0xFC00, 0, value),
                    ),
                    _ => old(self)@.outbox,
                }
                &&& final(self)@ == with_journal(old(self)@, j, final(self)@.outbox)
            },
    {
        if let Some(entry_index) = entry_index {
            let result = self.journal.resolve_result(entry_index);
            return (entry_index, result);
        }
        let ghost custom_value: Seq<u8> = match message@ {
            EntryV::Custom { value } => value,
            _ => Seq::empty(),
        };
        let custom: Option<Option<Vec<u8>>> = match &message {
            Entry::Custom { value } => if value.len() <= 0xffff_ffff {
                Some(Some(encode_frame(0xFC00, 0, value.as_slice())))
            } else {
                Some(None)
            },
            _ => None,
        };
        self.journal.increment_user_code_index();
        let entry_index = self.journal.get_user_code_journal_index();
        self.journal.append_entry(message);
        if let Some(frame) = custom {
            self.send(frame, Ghost(custom_value.len()), Ghost(spec_frame(0xFC00, 0, custom_value)));
        }
        (entry_index, None)
    }

    pub fn get_user_code_journal_index(&self) -> (r: u32)
        ensures
            r == self@.journal.index,
    {
        self.journal.get_user_code_journal_index()
    }

    pub fn get_next_user_code_journal_index(&self) -> (r: u32)
        requires
            self@.journal.index < u32::MAX,
        ensures
            r == self@.journal.index + 1,
    {
        self.journal.get_next_user_code_journal_index()
    }

    pub fn is_replaying(&self) -> (r: bool)
        ensures
            r == (self@.journal.state == NewExecutionState::REPLAYING),
    {
        self.journal.is_replaying()
    }

    pub fn is_next_entry_replaying(&self) -> (r: bool)
        ensures
            r == (self@.journal.state == NewExecutionState::REPLAYING && self@.journal.index + 1
                < self@.journal.entries_to_replay),
    {
        self.journal.is_next_entry_replaying()
    }

    /// Whether the next replayed entry gives the user code a result.
    pub fn journal_next_replay_result_known(&self) -> (r: bool)
        requires
            self@.journal.index < u32::MAX,
        ensures
            r == crate::journal::spec_next_replay_result(self@.journal) is Some,
    {
        self.journal.next_replay_result_known()
    }

    /// Whether the journal is closed.
    pub fn is_closed(&self) -> (r: bool)
        ensures
            r == (self@.journal.state == NewExecutionState::CLOSED),
    {
        self.journal.is_closed()
    }

    /// Updates the replay mark of the current span. Returns the marks to record,
    /// in order: `true` when replay starts, `false` when the next entry is no
    /// longer replayed.
    pub fn set_span(&mut self) -> (r: Vec<bool>)
        ensures
            ({
                let j = old(self)@.journal;
                let start = old(self)@.span_replay_flag && j.state == NewExecutionState::REPLAYING;
                let flag = old(self)@.span_replay_flag && !start;
                let next_replaying = j.state == NewExecutionState::REPLAYING && j.index + 1 < j.entries_to_replay;
                let stop = !flag && !next_replaying;
                &&& r@ == (if start { seq![true] } else { Seq::<bool>::empty() }) + (if stop {
                    seq![false]
                } else {
                    Seq::<bool>::empty()
                })
                &&& final(self)@ == (StateMachineV { span_replay_flag: flag || stop, ..old(self)@ })
            }),
    {
        let mut records: Vec<bool> = Vec::new();
        if self.span_replay_flag == true && self.journal.is_replaying() {
            records.push(true);
            self.span_replay_flag = false;
        }
        if self.span_replay_flag == false && !self.journal.is_next_entry_replaying() {
            records.push(false);
            self.span_replay_flag = true;
        }
        assert(records@ =~= (if old(self)@.span_replay_flag && old(self)@.journal.state == NewExecutionState::REPLAYING {
            seq![true]
        } else {
            Seq::<bool>::empty()
        }) + (if !(old(self)@.span_replay_flag && !(old(self)@.span_replay_flag && old(self)@.journal.state
            == NewExecutionState::REPLAYING)) && !(old(self)@.journal.state == NewExecutionState::REPLAYING
            && old(self)@.journal.index + 1 < old(self)@.journal.entries_to_replay) {
            seq![false]
        } else {
            Seq::<bool>::empty()
        }));
        records
    }

    /// Whether the machine can take a message from the runtime: a completion of
    /// a kept entry must be one the entry can take.
    pub open spec fn spec_accepts(&self, message: ProtocolMessage) -> bool {
        match message {
            ProtocolMessage::Completion(c) => self@.journal.pending.contains_key(c.entry_index) ==> spec_completion_readable(
                self@.journal.pending[c.entry_index]@,
                opt_view(c.result),
            ),
            _ => true,
        }
    }

    /// Whether the machine can take the message (see `spec_accepts`).
    pub fn accepts(&self, message: &ProtocolMessage) -> (r: bool)
        ensures
            r == self.spec_accepts(*message),
    {
        match message {
            ProtocolMessage::Completion(c) => self.journal.completion_readable(c),
            _ => true,
        }
    }

    /// Takes a message from the runtime: completions and acknowledgements go to
    /// the journal; other messages are passed over, as is everything once the
    /// machine is closed. Returns `false` (the machine is never done with the
    /// stream) and the index of the entry whose waiting user code is to be
    /// woken, if any.
    pub fn handle_message(&mut self, message: (MessageType, ProtocolMessage)) -> (r: (bool, Option<u32>))
        requires
            old(self).spec_accepts(message.1),
        ensures
            !r.0,
            old(self)@.closed ==> final(self)@ == old(self)@ && r.1 is None,
            !old(self)@.closed ==> match (message.0, message.1) {
                (MessageType::Completion, ProtocolMessage::Completion(c)) => {
                    &&& crate::journal::spec_completion_step(
                        old(self)@.journal,
                        c.entry_index,
                        opt_view(c.result),
                        final(self)@.journal,
                        r.1 is Some,
                    )
                    &&& (r.1 is Some ==> r.1 == Some(c.entry_index))
                    &&& final(self)@ == with_journal(old(self)@, final(self)@.journal, old(self)@.outbox)
                },
                (MessageType::EntryAck, ProtocolMessage::EntryAck(a)) => {
                    &&& r.1 == (if old(self)@.journal.pending.contains_key(a.entry_index) && old(self)@.journal.waiting.contains(
                        a.entry_index,
                    ) {
                        Some(a.entry_index)
                    } else {
                        None
                    })
                    &&& final(self)@ == with_journal(
                        old(self)@,
                        JournalV {
                            pending: old(self)@.journal.pending.remove(a.entry_index),
                            waiting: old(self)@.journal.waiting.remove(a.entry_index),
                            ..old(self)@.journal
                        },
                        old(self)@.outbox,
                    )
                },
                _ => final(self)@ == old(self)@ && r.1 is None,
            },
    {
        if self.machine_closed {
            return (false, None);
        }
        match message.0 {
            MessageType::Completion => {
                if let ProtocolMessage::Completion(c) = message.1 {
                    let index = c.entry_index;
                    let woken = self.journal.handle_runtime_completion_message(c);
                    return (false, if woken { Some(index) } else { None });
                }
            },
            MessageType::EntryAck => {
                if let ProtocolMessage::EntryAck(a) = message.1 {
                    let woken = self.journal.handle_runtime_entry_ack_message(a);
                    return (false, if woken { Some(a.entry_index) } else { None });
                }
            },
            _ => {},
        }
        (false, None)
    }

    /// Ends the invocation with the handler's outcome: a value is recorded as
    /// the output entry, a failure is reported with an error message; the end
    /// message follows.
    pub fn finish(&mut self, outcome: Result<Vec<u8>, String>)
        requires
            old(self)@.journal.index < u32::MAX,
        ensures
            match outcome {
                Ok(v) => {
                    let (m, _, _) = spec_handle_user_code(old(self)@, None, None, Entry::Output {
                        result: EntryResult::Success(v),
                    });
                    final(self)@ == (StateMachineV {
                        outbox: spec_offer(m.outbox, m.connected, m.journal, 0, spec_end_frame()),
                        ..m
                    })
                },
                Err(d) => {
                    let body = spec_encode_fields(failure_report_fields(d@));
                    let j = old(self)@.journal;
                    final(self)@ == with_journal(
                        old(self)@,
                        j,
                        spec_offer(
                            spec_offer(old(self)@.outbox, old(self)@.connected, j, body.len(), spec_frame(0x0003, 0, body)),
                            old(self)@.connected,
                            j,
                            0,
                            spec_end_frame(),
                        ),
                    )
                },
            },
    {
        match outcome {
            Ok(v) => {
                self.handle_user_code_message(None, None, Entry::Output { result: EntryResult::Success(v) });
                self.send(Some(encode_end()), Ghost(0), Ghost(spec_end_frame()));
            },
            Err(description) => {
                let err = ErrorMessage {
                    code: 0,
                    message: String::new(),
                    description,
                    related_entry_index: None,
                    related_entry_name: None,
                    related_entry_type: None,
                };
                let ghost e = err;
                assert(spec_error_fields(e) =~= failure_report_fields(e.description@));
                let frame = encode_error(&err);
                self.send(
                    frame,
                    Ghost(spec_encode_fields(failure_report_fields(e.description@)).len()),
                    Ghost(spec_frame(0x0003, 0, spec_encode_fields(failure_report_fields(e.description@)))),
                );
                self.send(Some(encode_end()), Ghost(0), Ghost(spec_end_frame()));
            },
        }
    }
}

/// The fields of the error message that reports a failure of the handler:
/// code 0, no message, the failure's description, nothing related.
pub open spec fn failure_report_fields(description: Seq<char>) -> Seq<crate::wire::FieldV> {
    crate::codec::varint_field(1, 0) + crate::codec::string_field(2, Seq::empty()) + crate::codec::string_field(
        3,
        description,
    ) + crate::message::opt_varint_field(4, None) + crate::message::opt_string_field(5, None)
        + crate::message::opt_varint_field(6, None)
}

fn copy_failure(f: &Failure) -> (r: Failure)
    ensures
        r@ == f@,
{
    Failure { code: f.code, message: f.message.clone() }
}

fn copy_entry_result(r: &EntryResult) -> (out: EntryResult)
    ensures
        out@ == r@,
{
    match r {
        EntryResult::Success(b) => EntryResult::Success(copy_all(b.as_slice())),
        EntryResult::Failure(f) => EntryResult::Failure(copy_failure(f)),
    }
}

fn copy_keys(keys: &Vec<Vec<u8>>) -> (r: Vec<Vec<u8>>)
    ensures
        bytes_list_view(r@) == bytes_list_view(keys@),
{
    let mut out: Vec<Vec<u8>> = Vec::new();
    let mut i: usize = 0;
    while i < keys.len()
        invariant
            i <= keys@.len(),
            out@.len() == i,
            forall|j: int| 0 <= j < i ==> #[trigger] out@[j]@ == keys@[j]@,
        decreases keys@.len() - i,
    {
        out.push(copy_all(keys[i].as_slice()));
        i = i + 1;
    }
    assert(bytes_list_view(out@) =~= bytes_list_view(keys@));
    out
}

fn request_without_headers(r: &InvokeRequest) -> (out: InvokeRequest)
    ensures
        out@ == (InvokeRequestV { headers: Seq::empty(), ..r@ }),
{
    let out = InvokeRequest {
        service_name: r.service_name.clone(),
        handler_name: r.handler_name.clone(),
        parameter: copy_all(r.parameter.as_slice()),
        headers: Vec::new(),
        key: r.key.clone(),
    };
    assert(crate::entry::headers_view(out.headers@) =~= Seq::<crate::entry::HeaderV>::empty());
    out
}

/// The entry as it is written to the runtime, as `spec_outgoing_entry` says.
fn outgoing_entry(e: &Entry) -> (r: Entry)
    requires
        !(e is Input),
    ensures
        r@ == spec_outgoing_entry(e@),
{
    match e {
        Entry::Input { .. } => vstd::pervasive::unreached(),
        Entry::Output { result } => Entry::Output { result: copy_entry_result(result) },
        Entry::GetState { key, .. } => Entry::GetState { key: copy_all(key.as_slice()), value: None },
        Entry::SetState { key, value } => Entry::SetState {
            key: copy_all(key.as_slice()),
            value: copy_all(value.as_slice()),
        },
        Entry::ClearState { key } => Entry::ClearState { key: copy_all(key.as_slice()) },
        Entry::GetStateKeys { value } => Entry::GetStateKeys {
            value: match value {
                Some(GetStateKeysResult::Result(keys)) => Some(GetStateKeysResult::Result(copy_keys(keys))),
                Some(GetStateKeysResult::Failure(f)) => Some(GetStateKeysResult::Failure(copy_failure(f))),
                None => None,
            },
        },
        Entry::ClearAllState => Entry::ClearAllState,
        Entry::GetPromise { key, .. } => Entry::GetPromise { key: key.clone(), value: None },
        Entry::PeekPromise { key, .. } => Entry::PeekPromise { key: key.clone(), value: None },
        Entry::CompletePromise { key, completion, .. } => Entry::CompletePromise {
            key: key.clone(),
            completion: copy_entry_result(completion),
            value: None,
        },
        Entry::Sleep { wake_up_time, .. } => Entry::Sleep { wake_up_time: *wake_up_time, result: None },
        Entry::Call { request, .. } => Entry::Call { request: request_without_headers(request), result: None },
        Entry::OneWayCall { request, invoke_time } => Entry::OneWayCall {
            request: request_without_headers(request),
            invoke_time: *invoke_time,
        },
        Entry::Awakeable { .. } => Entry::Awakeable { result: None },
        Entry::CompleteAwakeable { id, result } => Entry::CompleteAwakeable {
            id: id.clone(),
            result: copy_entry_result(result),
        },
        Entry::Run { result } => Entry::Run { result: copy_entry_result(result) },
        Entry::Custom { value } => Entry::Custom { value: copy_all(value.as_slice()) },
    }
}

/// The frame an entry is written with, as `spec_outgoing_frame` says; `None`
/// where its body is too long for a frame.
fn outgoing_frame(e: &Entry, name: &String) -> (r: Option<Vec<u8>>)
    requires
        !(e is Input),
    ensures
        (spec_outgoing_body(e@, name@).len() <= 0xffff_ffff) == (r is Some),
        r matches Some(f) ==> f@ == spec_outgoing_frame(e@, name@),
{
    let out = outgoing_entry(e);
    let body = serialize_entry(&out, name);
    let code: u16 = match e {
        Entry::ClearAllState => 0x0802,
        Entry::Custom { .. } => 0xFC00,
        _ => crate::message::message_type_code_of_entry(e.entry_type()),
    };
    if body.len() > 0xffff_ffff {
        return None;
    }
    Some(encode_frame(code, 0, body.as_slice()))
}

/// Resolving an entry the user code made before writes nothing to the runtime.
pub proof fn law_resolving_writes_nothing(v: StateMachineV, name: Option<Seq<char>>, index: u32, message: Entry)
    ensures
        spec_handle_user_code(v, name, Some(index), message).0.outbox == v.outbox,
        spec_handle_user_code(v, name, Some(index), message).1 == index,
{
}

/// While the journal replays, new entries of the user code are not written to
/// the runtime (unless the replayed entry is the output, which ends the replay):
/// the runtime already has them.
pub proof fn law_replayed_entries_are_not_written(v: StateMachineV, name: Option<Seq<char>>, message: Entry)
    requires
        v.journal.state == NewExecutionState::REPLAYING,
        v.journal.index + 1 < v.journal.entries_to_replay,
        v.journal.replay.contains_key((v.journal.index + 1) as u32) ==> !(v.journal.replay[(v.journal.index
            + 1) as u32]@ is Output),
    ensures
        spec_handle_user_code(v, name, None, message).0.outbox == v.outbox,
{
}

/// Once the journal processes, each new entry whose result is not known is
/// written to a connected runtime (the input excepted), its frame last.
pub proof fn law_processed_entries_are_written(v: StateMachineV, name: Option<Seq<char>>, message: Entry)
    requires
        v.journal.state == NewExecutionState::PROCESSING,
        v.journal.index < u32::MAX,
        v.connected,
        !(message@ is Input),
        !(message@ is Output && v.journal.output_replayed),
        spec_outgoing_body(message@, match name {
            Some(n) => n,
            None => Seq::<char>::empty(),
        }).len() <= 0xffff_ffff,
    ensures
        spec_handle_user_code(v, name, None, message).2 is None,
        spec_handle_user_code(v, name, None, message).0.outbox == v.outbox.push(
            spec_outgoing_frame(
                message@,
                match name {
                    Some(n) => n,
                    None => Seq::<char>::empty(),
                },
            ),
        ),
{
}

/// The frame written for a new state write carries the entry's key and value
/// unchanged: it is a state write message (`0x0801`) whose body, read as a
/// state write, gives back the key and the value; under no name, with a key
/// and a value that are not empty, the body is field 1 (key byte `0x0A`) with
/// the key, then field 3 (key byte `0x1A`) with the value.
pub proof fn law_state_write_is_sent_whole(key: Seq<u8>, value: Seq<u8>, name: Seq<char>)
    requires
        wf_bytes(key),
        wf_bytes(value),
        wf_str(name),
    ensures
        spec_outgoing_code(EntryV::SetState { key, value }) == 0x0801,
        spec_deserialize(EntryType::SetState, spec_outgoing_body(EntryV::SetState { key, value }, name)) == Some(
            EntryV::SetState { key, value },
        ),
        key.len() > 0 && value.len() > 0 ==> spec_outgoing_body(EntryV::SetState { key, value }, Seq::empty())
            == seq![0x0Au8] + spec_varint(key.len()) + key + seq![0x1Au8] + spec_varint(value.len()) + value,
{
    let e = EntryV::SetState { key, value };
    lemma_bytes_field_valid(1, key);
    lemma_bytes_field_valid(3, value);
    lemma_string_field_valid(12, name);
    lemma_valid_fields_append(bytes_field(1, key), bytes_field(3, value));
    lemma_valid_fields_append(bytes_field(1, key) + bytes_field(3, value), string_field(12, name));
    lemma_entry_round_trip(e, name);
    if key.len() > 0 && value.len() > 0 {
        let f1 = FieldV { number: 1, value: WireValueV::Bytes(key) };
        let f3 = FieldV { number: 3, value: WireValueV::Bytes(value) };
        let fs = seq![f1, f3];
        assert(vstd::utf8::encode_utf8(Seq::<char>::empty()) =~= Seq::<u8>::empty());
        assert(spec_entry_fields(e, Seq::empty()) =~= fs);
        assert(spec_varint(10) == seq![0x0Au8]);
        assert(spec_varint(26) == seq![0x1Au8]);
        assert(fs.drop_first() =~= seq![f3]);
        assert(seq![f3].drop_first() =~= Seq::<FieldV>::empty());
        assert(spec_encode_fields(seq![f3].drop_first()) == Seq::<u8>::empty());
        assert(spec_encode_field(f3) == spec_varint(26) + (spec_varint(value.len()) + value));
        assert(spec_encode_fields(seq![f3]) =~= seq![0x1Au8] + spec_varint(value.len()) + value);
        assert(spec_encode_field(f1) == spec_varint(10) + (spec_varint(key.len()) + key));
        assert(spec_encode_fields(fs) =~= seq![0x0Au8] + spec_varint(key.len()) + key + seq![0x1Au8] + spec_varint(
            value.len(),
        ) + value);
    }
}

/// An output entry made while the journal processes closes it.
pub proof fn law_output_closes_the_journal(v: StateMachineV, name: Option<Seq<char>>, message: Entry)
    requires
        v.journal.state == NewExecutionState::PROCESSING,
        v.journal.index < u32::MAX,
        message@ is Output,
    ensures
        spec_handle_user_code(v, name, None, message).0.journal.state == NewExecutionState::CLOSED,
{
}

} // verus!
