//! Gathering an invocation from the messages that start it: the start message,
//! the input entry and the entries to replay.

use vstd::prelude::*;
use dashmap::DashMap;
use crate::entry::{Entry, HeaderV, headers_view};
use crate::types::Header;
use crate::codec::spec_deserialize;
use crate::message::{MessageType, ProtocolMessage, StartMessage};
use crate::store::{LocalStateStore, StateEntry, start_state_map};
use crate::shared_map::{entries_of, map_new, map_insert, map_len, map_remove, map_contains_key, map_get_cloned};

verus! {

/// What the builder expects next.
#[derive(Clone, Copy, Debug, PartialEq, Eq, Structural)]
pub enum InvocationState {
    ExpectingStart,
    ExpectingInput,
    ExpectingFurtherReplay,
    Complete,
}

/// An invocation, ready to be run: its id, the entries to replay and the input.
pub struct Invocation {
    pub id: Vec<u8>,
    pub debug_id: Option<String>,
    pub number_entries_to_replay: u32,
    replay_entries: DashMap<u32, Entry>,
    pub invocation_value: Option<Vec<u8>>,
    pub invocation_headers: Option<Vec<Header>>,
    pub local_state_store: Option<LocalStateStore>,
    pub user_key: Option<String>,
}

/// Collects the messages that start an invocation.
pub struct InvocationBuilder {
    state: InvocationState,
    replay_index: u32,
    replay_entries: DashMap<u32, Entry>,
    id: Option<Vec<u8>>,
    debug_id: Option<String>,
    known_entries: u32,
    invocation_value: Option<Vec<u8>>,
    invocation_headers: Option<Vec<Header>>,
    local_state_store: Option<LocalStateStore>,
    user_key: Option<String>,
}

/// The model of a builder.
pub struct InvocationBuilderV {
    pub state: InvocationState,
    pub replay_index: u32,
    pub replay: Map<u32, Entry>,
    pub id: Option<Seq<u8>>,
    pub debug_id: Option<Seq<char>>,
    pub known_entries: u32,
    pub value: Option<Seq<u8>>,
    pub store: Option<LocalStateStore>,
    pub user_key: Option<Seq<char>>,
    pub headers: Option<Seq<HeaderV>>,
}

pub open spec fn opt_headers(o: Option<Vec<Header>>) -> Option<Seq<HeaderV>> {
    match o {
        Some(hs) => Some(headers_view(hs@)),
        None => None,
    }
}

pub open spec fn opt_bytes(o: Option<Vec<u8>>) -> Option<Seq<u8>> {
    match o {
        Some(b) => Some(b@),
        None => None,
    }
}

pub open spec fn opt_chars(o: Option<String>) -> Option<Seq<char>> {
    match o {
        Some(s) => Some(s@),
        None => None,
    }
}

/// The keys `0 .. n` and no others.
pub open spec fn holds_first(m: Map<u32, Entry>, n: u32) -> bool {
    &&& m.dom().finite()
    &&& m.dom().len() == n
    &&& forall|k: u32| #[trigger] m.contains_key(k) <==> k < n
}

/// The state keys of a start message are text.
pub open spec fn valid_state_keys(entries: Seq<StateEntry>) -> bool {
    forall|i: int| 0 <= i < entries.len() ==> vstd::utf8::valid_utf8(#[trigger] entries[i].key@)
}

/// Whether the builder can take a message: where it expects an entry, the
/// message holds one that can be read, and the count of entries has room to
/// grow; a start message's state keys are text.
pub open spec fn accepts(v: InvocationBuilderV, m: ProtocolMessage) -> bool {
    match v.state {
        InvocationState::ExpectingStart => m matches ProtocolMessage::Start(s) ==> valid_state_keys(s.state_map@),
        InvocationState::ExpectingInput | InvocationState::ExpectingFurtherReplay => {
            &&& m matches ProtocolMessage::UnparsedEntry(raw) && spec_deserialize(raw.header.ty, raw.entry@) is Some
            &&& v.replay_index < u32::MAX
        },
        InvocationState::Complete => true,
    }
}

/// The entry a message that holds one carries.
pub open spec fn carried_entry(m: ProtocolMessage) -> crate::entry::EntryV {
    match m {
        ProtocolMessage::UnparsedEntry(raw) => spec_deserialize(raw.header.ty, raw.entry@).unwrap(),
        _ => arbitrary(),
    }
}

/// The model of an invocation.
pub struct InvocationV {
    pub id: Seq<u8>,
    pub debug_id: Option<Seq<char>>,
    pub entries_to_replay: u32,
    pub replay: Map<u32, Entry>,
    pub value: Option<Seq<u8>>,
    pub headers: Option<Seq<HeaderV>>,
    pub store: Option<LocalStateStore>,
    pub user_key: Option<Seq<char>>,
}

impl View for Invocation {
    type V = InvocationV;

    closed spec fn view(&self) -> InvocationV {
        InvocationV {
            id: self.id@,
            debug_id: opt_chars(self.debug_id),
            entries_to_replay: self.number_entries_to_replay,
            replay: entries_of(self.replay_entries),
            value: opt_bytes(self.invocation_value),
            headers: opt_headers(self.invocation_headers),
            store: self.local_state_store,
            user_key: opt_chars(self.user_key),
        }
    }
}

impl Invocation {
    /// Whether the entries to replay start with one at index 0 (the input).
    pub fn holds_input_entry(&self) -> (r: bool)
        ensures
            r == self@.replay.contains_key(0),
    {
        map_contains_key(&self.replay_entries, 0)
    }

    /// The number of entries to replay that are held.
    pub fn replay_entry_count(&self) -> (r: usize)
        requires
            self@.replay.dom().finite(),
        ensures
            r == self@.replay.dom().len(),
    {
        map_len(&self.replay_entries)
    }

    /// A copy of the entry to replay at `index`, if one is held.
    pub fn replay_entry(&self, index: u32) -> (r: Option<Entry>)
        ensures
            r is Some == self@.replay.contains_key(index),
            r matches Some(e) ==> e@ == self@.replay[index]@,
    {
        map_get_cloned(&self.replay_entries, index)
    }

    /// The invocation's id.
    pub fn invocation_id(&self) -> (r: Vec<u8>)
        ensures
            r@ == self@.id,
    {
        crate::codec::copy_all(self.id.as_slice())
    }

    /// The invocation's input value, if it has one.
    pub fn input_value(&self) -> (r: Option<Vec<u8>>)
        ensures
            opt_bytes(r) == self@.value,
    {
        match &self.invocation_value {
            Some(v) => Some(crate::codec::copy_all(v.as_slice())),
            None => None,
        }
    }

    /// The number of entries the runtime announced.
    pub fn entries_to_replay(&self) -> (r: u32)
        ensures
            r == self@.entries_to_replay,
    {
        self.number_entries_to_replay
    }

    /// Takes the entry to replay at `index` out, if one is held.
    pub fn take_replay_entry(&mut self, index: u32) -> (r: Option<Entry>)
        ensures
            final(self)@ == (InvocationV { replay: old(self)@.replay.remove(index), ..old(self)@ }),
            r == (if old(self)@.replay.contains_key(index) {
                Some(old(self)@.replay[index])
            } else {
                None::<Entry>
            }),
    {
        map_remove(&mut self.replay_entries, index)
    }

    /// Takes the local state store out of the invocation.
    pub fn take_local_state_store(&mut self) -> (r: Option<LocalStateStore>)
        ensures
            r == old(self)@.store,
            final(self)@ == (InvocationV { store: None, ..old(self)@ }),
    {
        self.local_state_store.take()
    }
}

/// One step of the builder, from `old` to `new` on message `m`, returning
/// `r`: the start message sets the invocation's id, key, entry count and state
/// store; each entry after it is stored at the next replay index (an input
/// entry, first, gives the invocation its value); the builder is complete once
/// it holds the announced entries, and then stays as it is.
pub open spec fn spec_builder_step(old: InvocationBuilderV, m: ProtocolMessage, new: InvocationBuilderV, r: bool) -> bool {
    &&& r == (new.state == InvocationState::Complete)
    &&& new.headers == old.headers
    &&& (old.state == InvocationState::ExpectingStart ==> {
        &&& !r
        &&& new.state == InvocationState::ExpectingInput
        &&& new.replay == old.replay
        &&& new.replay_index == old.replay_index
        &&& new.value == old.value
        &&& match m {
            ProtocolMessage::Start(s) => {
                &&& new.known_entries == s.known_entries
                &&& new.id == Some(s.id@)
                &&& new.debug_id == Some(s.debug_id@)
                &&& new.user_key == Some(s.key@)
                &&& new.store matches Some(st) && st.spec_is_partial() == s.partial_state
                    && st.spec_state() == start_state_map(s.state_map@)
            },
            _ => {
                &&& new.known_entries == old.known_entries
                &&& new.id == old.id
                &&& new.debug_id == old.debug_id
                &&& new.user_key == old.user_key
                &&& new.store == old.store
            },
        }
    })
    &&& ((old.state == InvocationState::ExpectingInput || old.state == InvocationState::ExpectingFurtherReplay) ==> {
        &&& new.replay.contains_key(old.replay_index)
        &&& new.replay[old.replay_index]@ == carried_entry(m)
        &&& new.replay.remove(old.replay_index) =~= old.replay
        &&& new.replay_index == old.replay_index + 1
        &&& new.value == (match carried_entry(m) {
            crate::entry::EntryV::Input { value, .. } => if old.state == InvocationState::ExpectingInput {
                Some(value)
            } else {
                old.value
            },
            _ => old.value,
        })
        &&& new.state == (if new.replay_index == old.known_entries {
            InvocationState::Complete
        } else {
            InvocationState::ExpectingFurtherReplay
        })
        &&& new.known_entries == old.known_entries
        &&& new.id == old.id
        &&& new.debug_id == old.debug_id
        &&& new.user_key == old.user_key
        &&& new.store == old.store
    })
    &&& (old.state == InvocationState::Complete ==> new == old)
}

impl View for InvocationBuilder {
    type V = InvocationBuilderV;

    closed spec fn view(&self) -> InvocationBuilderV {
        InvocationBuilderV {
            state: self.state,
            replay_index: self.replay_index,
            replay: entries_of(self.replay_entries),
            id: opt_bytes(self.id),
            debug_id: opt_chars(self.debug_id),
            known_entries: self.known_entries,
            value: opt_bytes(self.invocation_value),
            store: self.local_state_store,
            user_key: opt_chars(self.user_key),
            headers: opt_headers(self.invocation_headers),
        }
    }
}

impl InvocationBuilder {
    pub closed spec fn wf(&self) -> bool {
        &&& holds_first(entries_of(self.replay_entries), self.replay_index)
        &&& self.invocation_headers is None
        &&& (self.state == InvocationState::Complete ==> self.replay_index == self.known_entries)
        &&& (self.local_state_store matches Some(s) ==> s.wf())
    }

    /// A builder that expects the start message.
    pub fn new() -> (r: Self)
        ensures
            r.wf(),
            r@.state == InvocationState::ExpectingStart,
            r@.replay_index == 0,
            r@.replay.dom() == Set::<u32>::empty(),
            r@.id is None,
            r@.debug_id is None,
            r@.known_entries == 0,
            r@.value is None,
            r@.store is None,
            r@.user_key is None,
            r@.headers is None,
    {
        let b = InvocationBuilder {
            state: InvocationState::ExpectingStart,
            replay_index: 0,
            replay_entries: map_new(),
            id: None,
            debug_id: None,
            known_entries: 0,
            invocation_value: None,
            invocation_headers: None,
            local_state_store: None,
            user_key: None,
        };
        assert(entries_of(b.replay_entries).dom() =~= Set::<u32>::empty());
        b
    }

    /// Whether the start message was received: an invocation can be built.
    pub fn has_id(&self) -> (r: bool)
        ensures
            r == self@.id is Some,
    {
        self.id.is_some()
    }

    /// The number of entries received so far.
    pub fn replay_count(&self) -> (r: u32)
        ensures
            r == self@.replay_index,
    {
        self.replay_index
    }

    /// What the builder expects next.
    pub fn state(&self) -> (r: InvocationState)
        ensures
            r == self@.state,
    {
        self.state
    }

    /// Whether the builder can take the message (see `accepts`).
    pub fn accepts_message(&self, message: &ProtocolMessage) -> (r: bool)
        requires
            self.wf(),
        ensures
            r == accepts(self@, *message),
    {
        match self.state {
            InvocationState::ExpectingStart => match message {
                ProtocolMessage::Start(s) => state_keys_are_text(&s.state_map),
                _ => true,
            },
            InvocationState::ExpectingInput | InvocationState::ExpectingFurtherReplay => {
                let readable = match message {
                    ProtocolMessage::UnparsedEntry(raw) => raw.deserialize_entry().is_ok(),
                    _ => false,
                };
                readable && self.replay_index < u32::MAX
            },
            InvocationState::Complete => true,
        }
    }

    /// The invocation the builder gathered.
    pub fn build(self) -> (r: Invocation)
        requires
            self.wf(),
            self@.id is Some,
        ensures
            Some(r@.id) == self@.id,
            r@.debug_id == self@.debug_id,
            r@.entries_to_replay == self@.known_entries,
            r@.replay == self@.replay,
            r@.replay.dom().finite(),
            r@.value == self@.value,
            r@.headers == self@.headers,
            r@.store == self@.store,
            r@.user_key == self@.user_key,
    {
        Invocation {
            id: self.id.unwrap(),
            debug_id: self.debug_id,
            number_entries_to_replay: self.known_entries,
            replay_entries: self.replay_entries,
            invocation_value: self.invocation_value,
            invocation_headers: self.invocation_headers,
            local_state_store: self.local_state_store,
            user_key: self.user_key,
        }
    }

    fn handle_start_message(&mut self, message: StartMessage)
        requires
            old(self).wf(),
            old(self).state != InvocationState::Complete,
            valid_state_keys(message.state_map@),
        ensures
            final(self).wf(),
            final(self)@.state == old(self)@.state,
            final(self)@.replay_index == old(self)@.replay_index,
            final(self)@.replay == old(self)@.replay,
            final(self)@.value == old(self)@.value,
            final(self)@.headers == old(self)@.headers,
            final(self)@.known_entries == message.known_entries,
            final(self)@.id == Some(message.id@),
            final(self)@.debug_id == Some(message.debug_id@),
            final(self)@.user_key == Some(message.key@),
            final(self)@.store matches Some(s) && s.spec_is_partial() == message.partial_state
                && s.spec_state() == start_state_map(message.state_map@),
    {
        self.known_entries = message.known_entries;
        self.id = Some(message.id);
        self.debug_id = Some(message.debug_id);
        self.user_key = Some(message.key);
        self.local_state_store = Some(LocalStateStore::new(message.partial_state, message.state_map));
    }

    fn append_replay_entry(&mut self, entry: Entry)
        requires
            old(self).wf(),
            old(self).state != InvocationState::Complete,
            old(self).replay_index < u32::MAX,
        ensures
            final(self).wf(),
            final(self)@.replay == old(self)@.replay.insert(old(self)@.replay_index, entry),
            final(self)@.replay_index == old(self)@.replay_index + 1,
            final(self)@.headers == old(self)@.headers,
            final(self)@.state == old(self)@.state,
            final(self)@.id == old(self)@.id,
            final(self)@.debug_id == old(self)@.debug_id,
            final(self)@.known_entries == old(self)@.known_entries,
            final(self)@.value == old(self)@.value,
            final(self)@.store == old(self)@.store,
            final(self)@.user_key == old(self)@.user_key,
    {
        let ghost before = entries_of(self.replay_entries);
        let ghost n = self.replay_index;
        map_insert(&mut self.replay_entries, self.replay_index, entry);
        self.replay_index = self.replay_index + 1;
        proof {
            let after = entries_of(self.replay_entries);
            assert(!before.dom().contains(n));
            assert(after.dom() =~= before.dom().insert(n));
            assert forall|k: u32| #[trigger] after.contains_key(k) <==> k < self.replay_index by {
                if k == n {
                } else {
                    assert(after.contains_key(k) == before.contains_key(k));
                }
            }
        }
    }

    /// Takes the next message. Returns whether the invocation is complete: the
    /// start message was followed by as many entries as it announced.
    pub fn handle_message(&mut self, message: (MessageType, ProtocolMessage)) -> (r: bool)
        requires
            old(self).wf(),
            accepts(old(self)@, message.1),
        ensures
            final(self).wf(),
            spec_builder_step(old(self)@, message.1, final(self)@, r),
    {
        match self.state {
            InvocationState::ExpectingStart => {
                match message.1 {
                    ProtocolMessage::Start(start_message) => {
                        self.handle_start_message(start_message);
                    },
                    _ => {},
                }
                self.state = InvocationState::ExpectingInput;
                return false;
            },
            InvocationState::ExpectingInput => {
                let entry = self.deserialize_entry(message.1);
                if let Entry::Input { value, .. } = &entry {
                    self.invocation_value = Some(crate::wire::copy_range(value.as_slice(), 0, value.len()));
                    assert(value@.subrange(0, value@.len() as int) =~= value@);
                }
                self.append_replay_entry(entry);
            },
            InvocationState::ExpectingFurtherReplay => {
                let entry = self.deserialize_entry(message.1);
                self.append_replay_entry(entry);
            },
            InvocationState::Complete => {},
        }
        let count = map_len(&self.replay_entries);
        if count == self.known_entries as usize {
            self.state = InvocationState::Complete;
        } else {
            self.state = InvocationState::ExpectingFurtherReplay;
        }
        self.state == InvocationState::Complete
    }

    fn deserialize_entry(&self, message: ProtocolMessage) -> (r: Entry)
        requires
            message matches ProtocolMessage::UnparsedEntry(raw) && spec_deserialize(raw.header.ty, raw.entry@) is Some,
        ensures
            r@ == carried_entry(message),
    {
        match message {
            ProtocolMessage::UnparsedEntry(raw_entry) => match raw_entry.deserialize_entry() {
                Ok(e) => e,
                Err(_) => vstd::pervasive::unreached(),
            },
            _ => vstd::pervasive::unreached(),
        }
    }
}

/// Whether every state key of a start message is text.
fn state_keys_are_text(entries: &Vec<StateEntry>) -> (r: bool)
    ensures
        r == valid_state_keys(entries@),
{
    let mut i: usize = 0;
    while i < entries.len()
        invariant
            i <= entries@.len(),
            forall|j: int| 0 <= j < i ==> vstd::utf8::valid_utf8(#[trigger] entries@[j].key@),
        decreases entries@.len() - i,
    {
        let copy = crate::codec::copy_all(entries[i].key.as_slice());
        if crate::codec::string_from_utf8(copy).is_none() {
            return false;
        }
        i = i + 1;
    }
    true
}

/// The value the first entry gives an invocation: the input entry's value.
pub open spec fn input_value_of(m: ProtocolMessage) -> Option<Seq<u8>> {
    match carried_entry(m) {
        crate::entry::EntryV::Input { value, .. } => Some(value),
        _ => None,
    }
}

/// The entries count of the start message.
pub open spec fn announced(m: ProtocolMessage) -> int {
    match m {
        ProtocolMessage::Start(s) => s.known_entries as int,
        _ => 0,
    }
}

/// The entries stored after `j` messages of which the first is the start.
pub open spec fn stored_after(j: int, known: int) -> int {
    if j - 1 < known {
        j - 1
    } else {
        known
    }
}

/// A run of the builder: `vs[i + 1]` is what message `ms[i]` leaves of
/// `vs[i]`, which returned `rs[i]`; it starts fresh, with a start message that
/// announces at least one entry.
pub open spec fn builder_run(ms: Seq<ProtocolMessage>, vs: Seq<InvocationBuilderV>, rs: Seq<bool>) -> bool {
    &&& ms.len() >= 1
    &&& vs.len() == ms.len() + 1
    &&& rs.len() == ms.len()
    &&& vs[0].state == InvocationState::ExpectingStart
    &&& vs[0].replay_index == 0
    &&& vs[0].replay.dom() == Set::<u32>::empty()
    &&& vs[0].value is None
    &&& ms[0] is Start
    &&& announced(ms[0]) >= 1
    &&& forall|i: int| 0 <= i < ms.len() ==> spec_builder_step(#[trigger] vs[i], ms[i], vs[i + 1], rs[i])
}

proof fn lemma_builder_prefix(ms: Seq<ProtocolMessage>, vs: Seq<InvocationBuilderV>, rs: Seq<bool>, j: int)
    requires
        builder_run(ms, vs, rs),
        1 <= j <= ms.len(),
    ensures
        vs[j].known_entries == announced(ms[0]),
        vs[j].replay_index == stored_after(j, announced(ms[0])),
        vs[j].state == (if j == 1 {
            InvocationState::ExpectingInput
        } else if stored_after(j, announced(ms[0])) == announced(ms[0]) {
            InvocationState::Complete
        } else {
            InvocationState::ExpectingFurtherReplay
        }),
        forall|k: u32| #[trigger] vs[j].replay.contains_key(k) <==> k < stored_after(j, announced(ms[0])),
        forall|k: u32| k < stored_after(j, announced(ms[0])) ==> #[trigger] vs[j].replay[k]@ == carried_entry(ms[k + 1]),
        vs[j].value == (if j == 1 {
            None
        } else {
            input_value_of(ms[1])
        }),
        rs[j - 1] == (j >= 2 && j - 1 >= announced(ms[0])),
    decreases j,
{
    let known = announced(ms[0]);
    if j == 1 {
        assert(spec_builder_step(vs[0], ms[0], vs[1], rs[0]));
        assert forall|k: u32| #[trigger] vs[1].replay.contains_key(k) <==> k < stored_after(1, known) by {
            assert(!vs[0].replay.dom().contains(k));
        }
    } else {
        lemma_builder_prefix(ms, vs, rs, j - 1);
        let old = vs[j - 1];
        let new = vs[j];
        assert(spec_builder_step(vs[j - 1], ms[j - 1], vs[j], rs[j - 1]));
        if old.state == InvocationState::Complete {
            assert(new == old);
        } else {
            let i = old.replay_index;
            assert forall|k: u32| #[trigger] new.replay.contains_key(k) <==> k < stored_after(j, known) by {
                if k != i {
                    assert(new.replay.remove(i).contains_key(k) == new.replay.contains_key(k));
                    assert(old.replay.contains_key(k) == new.replay.remove(i).contains_key(k));
                }
            }
            assert forall|k: u32| k < stored_after(j, known) implies #[trigger] new.replay[k]@ == carried_entry(ms[k + 1]) by {
                if k != i {
                    assert(new.replay.remove(i)[k] == new.replay[k]);
                    assert(old.replay[k] == new.replay.remove(i)[k]);
                    assert(old.replay[k]@ == carried_entry(ms[k + 1]));
                }
            }
        }
    }
}

/// The builder gathers exactly the announced entries, in the order they
/// arrive: after the start message announcing `K >= 1` entries, the message
/// that arrives `i`-th is stored at replay index `i - 1`, none lost or
/// duplicated; each call but the start returns whether all `K` have arrived;
/// the first entry, an input, gives the invocation its value; calls after the
/// `K`-th store nothing.
pub proof fn law_builder_gathers_announced_entries(ms: Seq<ProtocolMessage>, vs: Seq<InvocationBuilderV>, rs: Seq<bool>)
    requires
        builder_run(ms, vs, rs),
    ensures
        !rs[0],
        forall|i: int| 1 <= i < ms.len() ==> #[trigger] rs[i] == (i >= announced(ms[0])),
        vs.last().replay_index == stored_after(ms.len() as int, announced(ms[0])),
        forall|k: u32| #[trigger] vs.last().replay.contains_key(k) <==> k < stored_after(
            ms.len() as int,
            announced(ms[0]),
        ),
        forall|k: u32| k < stored_after(ms.len() as int, announced(ms[0])) ==> #[trigger] vs.last().replay[k]@
            == carried_entry(ms[k + 1]),
        ms.len() >= 2 ==> vs.last().value == input_value_of(ms[1]),
{
    lemma_builder_prefix(ms, vs, rs, 1);
    lemma_builder_prefix(ms, vs, rs, ms.len() as int);
    assert forall|i: int| 1 <= i < ms.len() implies #[trigger] rs[i] == (i >= announced(ms[0])) by {
        lemma_builder_prefix(ms, vs, rs, i + 1);
    }
}

} // verus!
