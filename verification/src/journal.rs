//! The journal of an invocation: it replays the entries the runtime sent, and
//! keeps the entries whose results the runtime has yet to send.

use vstd::prelude::*;
use dashmap::DashMap;
use crate::entry::{
    Entry, EntryV, CompletionResult, CompletionResultV, EntryResult, EntryResultV, GetStateKeysResult,
    GetStateKeysResultV, SleepResult, SleepResultV, CompleteResult, CompleteResultV, opt_view, bytes_list_view,
};
use crate::codec::{spec_decode_state_keys, decode_state_keys};
use crate::invocation::{Invocation, InvocationV};
use crate::entry::HeaderV;
use crate::store::LocalStateStore;
use crate::message::{CompletionMessage, EntryAckMessage};
use crate::shared_map::{entries_of, map_new, map_insert, map_remove, map_contains_key, map_get_cloned};

verus! {

/// The phase of an invocation's execution.
#[allow(non_camel_case_types)]
#[derive(Clone, Copy, Debug, PartialEq, Eq, Structural)]
pub enum NewExecutionState {
    /// The user code is re-running the entries the runtime already has.
    REPLAYING,
    /// The user code produces new entries.
    PROCESSING,
    /// The invocation has ended; nothing changes any more.
    CLOSED,
}

/// The state a transition leads to: a closed journal stays closed.
pub open spec fn spec_transition(s: NewExecutionState, to: NewExecutionState) -> NewExecutionState {
    if s == NewExecutionState::CLOSED {
        NewExecutionState::CLOSED
    } else {
        to
    }
}

/// The model of a journal.
pub struct JournalV {
    pub state: NewExecutionState,
    pub index: u32,
    pub pending: Map<u32, Entry>,
    pub replay: Map<u32, Entry>,
    pub entries_to_replay: u32,
    pub output_replayed: bool,
    /// The indexes of the kept entries whose user code waits to be woken.
    pub waiting: Set<u32>,
    pub id: Seq<u8>,
    pub debug_id: Option<Seq<char>>,
    pub value: Option<Seq<u8>>,
    pub headers: Option<Seq<HeaderV>>,
    pub store: Option<LocalStateStore>,
    pub user_key: Option<Seq<char>>,
}

pub open spec fn no_bytes() -> Option<Seq<u8>> {
    Some(Seq::<u8>::empty())
}

/// What the user code gets from an entry of the journal whose result is known:
/// the value it carries, empty bytes for entries that carry none, nothing where
/// the result is a failure or missing.
pub open spec fn spec_pending_result(e: EntryV) -> Option<Seq<u8>> {
    match e {
        EntryV::GetState { value: Some(CompletionResultV::Empty), .. } => no_bytes(),
        EntryV::GetState { value: Some(CompletionResultV::Success(b)), .. } => Some(b),
        EntryV::SetState { .. } | EntryV::ClearState { .. } | EntryV::ClearAllState => no_bytes(),
        EntryV::GetStateKeys { value: Some(_) } => no_bytes(),
        EntryV::GetPromise { value: Some(EntryResultV::Success(b)), .. } => Some(b),
        EntryV::PeekPromise { value: Some(CompletionResultV::Empty), .. } => no_bytes(),
        EntryV::PeekPromise { value: Some(CompletionResultV::Success(b)), .. } => Some(b),
        EntryV::CompletePromise { value: Some(CompleteResultV::Done), .. } => no_bytes(),
        EntryV::Sleep { result: Some(SleepResultV::Fired), .. } => no_bytes(),
        EntryV::Call { result: Some(EntryResultV::Success(b)), .. } => Some(b),
        EntryV::Awakeable { result: Some(EntryResultV::Success(b)) } => Some(b),
        EntryV::Run { result: EntryResultV::Success(b) } => Some(b),
        _ => None,
    }
}

/// What the user code gets from an entry that is replayed: as for a known
/// result, but the output's value and the completion a promise was completed
/// with count, and a completed promise does not.
pub open spec fn spec_replay_result(e: EntryV) -> Option<Seq<u8>> {
    match e {
        EntryV::Output { result: EntryResultV::Success(b) } => Some(b),
        EntryV::CompletePromise { completion: EntryResultV::Success(b), .. } => Some(b),
        EntryV::CompletePromise { .. } => None,
        _ => spec_pending_result(e),
    }
}

/// Entries that wait for the runtime's completion when the user code makes them.
pub open spec fn spec_awaits_completion(e: EntryV) -> bool {
    match e {
        EntryV::GetState { .. } | EntryV::GetStateKeys { .. } | EntryV::GetPromise { .. }
        | EntryV::PeekPromise { .. } | EntryV::CompletePromise { .. } | EntryV::Sleep { .. }
        | EntryV::Call { .. } | EntryV::Awakeable { .. } => true,
        _ => false,
    }
}

/// Whether a completion can be applied to an entry: state keys must be readable.
pub open spec fn spec_completion_readable(e: EntryV, r: Option<CompletionResultV>) -> bool {
    match (e, r) {
        (EntryV::GetStateKeys { .. }, Some(CompletionResultV::Success(b))) => spec_decode_state_keys(b) is Some,
        _ => true,
    }
}

/// The entry a completion from the runtime makes of a waiting entry.
pub open spec fn spec_apply_completion(e: EntryV, r: Option<CompletionResultV>) -> EntryV {
    match r {
        None => e,
        Some(c) => match e {
            EntryV::GetState { key, .. } => EntryV::GetState { key, value: Some(c) },
            EntryV::PeekPromise { key, .. } => EntryV::PeekPromise { key, value: Some(c) },
            EntryV::GetStateKeys { .. } => match c {
                CompletionResultV::Empty => EntryV::GetStateKeys {
                    value: Some(GetStateKeysResultV::Result(Seq::empty())),
                },
                CompletionResultV::Success(b) => EntryV::GetStateKeys {
                    value: Some(GetStateKeysResultV::Result(spec_decode_state_keys(b).unwrap())),
                },
                CompletionResultV::Failure(f) => EntryV::GetStateKeys { value: Some(GetStateKeysResultV::Failure(f)) },
            },
            EntryV::GetPromise { key, value } => match c {
                CompletionResultV::Empty => e,
                CompletionResultV::Success(b) => EntryV::GetPromise { key, value: Some(EntryResultV::Success(b)) },
                CompletionResultV::Failure(f) => EntryV::GetPromise { key, value: Some(EntryResultV::Failure(f)) },
            },
            EntryV::CompletePromise { key, completion, .. } => match c {
                CompletionResultV::Failure(f) => EntryV::CompletePromise {
                    key,
                    completion,
                    value: Some(CompleteResultV::Failure(f)),
                },
                _ => EntryV::CompletePromise { key, completion, value: Some(CompleteResultV::Done) },
            },
            EntryV::Sleep { wake_up_time, .. } => match c {
                CompletionResultV::Failure(_) => e,
                _ => EntryV::Sleep { wake_up_time, result: Some(SleepResultV::Fired) },
            },
            EntryV::Call { request, .. } => match c {
                CompletionResultV::Empty => e,
                CompletionResultV::Success(b) => EntryV::Call { request, result: Some(EntryResultV::Success(b)) },
                CompletionResultV::Failure(f) => EntryV::Call { request, result: Some(EntryResultV::Failure(f)) },
            },
            EntryV::Awakeable { .. } => match c {
                CompletionResultV::Empty => e,
                CompletionResultV::Success(b) => EntryV::Awakeable { result: Some(EntryResultV::Success(b)) },
                CompletionResultV::Failure(f) => EntryV::Awakeable { result: Some(EntryResultV::Failure(f)) },
            },
            _ => e,
        },
    }
}

/// The journal of one invocation.
pub struct Journal {
    state: NewExecutionState,
    user_code_journal_index: u32,
    pending_entries: DashMap<u32, Entry>,
    invocation: Invocation,
    output_replayed: bool,
    waiting: Vec<u32>,
}

/// The indexes a list holds.
pub open spec fn index_set(v: Seq<u32>) -> Set<u32> {
    Set::new(|k: u32| v.contains(k))
}

impl View for Journal {
    type V = JournalV;

    closed spec fn view(&self) -> JournalV {
        JournalV {
            state: self.state,
            index: self.user_code_journal_index,
            pending: entries_of(self.pending_entries),
            replay: self.invocation@.replay,
            entries_to_replay: self.invocation@.entries_to_replay,
            output_replayed: self.output_replayed,
            waiting: index_set(self.waiting@),
            id: self.invocation@.id,
            debug_id: self.invocation@.debug_id,
            value: self.invocation@.value,
            headers: self.invocation@.headers,
            store: self.invocation@.store,
            user_key: self.invocation@.user_key,
        }
    }
}

/// The journal after a new entry of the user code moved the index on.
pub open spec fn spec_incremented(v: JournalV) -> JournalV {
    let index = (v.index + 1) as u32;
    JournalV {
        index,
        state: if index == v.entries_to_replay && v.state == NewExecutionState::REPLAYING {
            NewExecutionState::PROCESSING
        } else {
            v.state
        },
        ..v
    }
}

/// The journal after an output entry: closed, the input no longer pending.
pub open spec fn spec_closed_by_output(v: JournalV) -> JournalV {
    JournalV {
        state: spec_transition(v.state, NewExecutionState::CLOSED),
        pending: v.pending.remove(0),
        waiting: v.waiting.remove(0),
        ..v
    }
}

/// A new entry of the user code, made at index `v.index`, in the state `v`
/// that the index moved to: the journal it leaves and the result the user code
/// gets.
pub open spec fn spec_new_entry(v: JournalV, entry: Entry) -> (JournalV, Option<Seq<u8>>) {
    match v.state {
        NewExecutionState::REPLAYING => if v.replay.contains_key(v.index) {
            let e = v.replay[v.index];
            let w = JournalV { replay: v.replay.remove(v.index), ..v };
            match e@ {
                EntryV::Output { .. } => (
                    JournalV { output_replayed: true, ..spec_closed_by_output(w) },
                    spec_replay_result(e@),
                ),
                _ => (w, spec_replay_result(e@)),
            }
        } else {
            (v, None)
        },
        NewExecutionState::PROCESSING => match entry@ {
            EntryV::Output { .. } => (spec_closed_by_output(v), None),
            _ => if spec_awaits_completion(entry@) {
                (JournalV { pending: v.pending.insert(v.index, entry), waiting: v.waiting.insert(v.index), ..v }, None)
            } else {
                (v, None)
            },
        },
        NewExecutionState::CLOSED => (v, None),
    }
}

/// The journal after the entry at `index` is resolved, and what it resolves to.
pub open spec fn spec_resolve(v: JournalV, index: u32) -> (JournalV, Option<Seq<u8>>) {
    (
        JournalV { pending: v.pending.remove(index), waiting: v.waiting.remove(index), ..v },
        if v.pending.contains_key(index) {
            spec_pending_result(v.pending[index]@)
        } else {
            None
        },
    )
}

/// The result the next replayed entry gives the user code, where the journal
/// replays it.
pub open spec fn spec_next_replay_result(v: JournalV) -> Option<Seq<u8>> {
    let w = spec_incremented(v);
    if w.state == NewExecutionState::REPLAYING && w.replay.contains_key(w.index) {
        spec_replay_result(w.replay[w.index]@)
    } else {
        None
    }
}

/// The journal after the next entry is replayed.
pub open spec fn spec_replay_next(v: JournalV) -> JournalV {
    spec_new_entry(spec_incremented(v), Entry::ClearAllState).0
}

/// While the journal replays, what the user code makes does not matter: the
/// replayed entry decides.
pub proof fn lemma_replay_ignores_entry(v: JournalV, a: Entry, b: Entry)
    requires
        spec_incremented(v).state == NewExecutionState::REPLAYING,
    ensures
        spec_new_entry(spec_incremented(v), a) == spec_new_entry(spec_incremented(v), b),
        spec_new_entry(spec_incremented(v), a).1 == spec_next_replay_result(v),
{
}

/// The invocation a journal holds.
pub open spec fn spec_invocation_of(v: JournalV) -> InvocationV {
    InvocationV {
        id: v.id,
        debug_id: v.debug_id,
        entries_to_replay: v.entries_to_replay,
        replay: v.replay,
        value: v.value,
        headers: v.headers,
        store: v.store,
        user_key: v.user_key,
    }
}

/// A completion of the entry at `index` with `result`, from journal `old` to
/// journal `new`, reporting `woken`: a kept entry takes the result and stays
/// kept; the user code waiting on it is woken once (it no longer waits); an
/// entry not kept is passed over.
pub open spec fn spec_completion_step(
    old: JournalV,
    index: u32,
    result: Option<CompletionResultV>,
    new: JournalV,
    woken: bool,
) -> bool {
    &&& woken == (old.pending.contains_key(index) && old.waiting.contains(index))
    &&& new.pending.dom() == old.pending.dom()
    &&& forall|k: u32| k != index && #[trigger] old.pending.contains_key(k) ==> new.pending[k] == old.pending[k]
    &&& old.pending.contains_key(index) ==> new.pending[index]@ == spec_apply_completion(old.pending[index]@, result)
    &&& new.waiting == (if old.pending.contains_key(index) {
        old.waiting.remove(index)
    } else {
        old.waiting
    })
    &&& new == (JournalV { pending: new.pending, waiting: new.waiting, ..old })
}

proof fn lemma_push_index(s: Seq<u32>, x: u32)
    ensures
        index_set(s.push(x)) == index_set(s).insert(x),
{
    assert forall|y: u32| #[trigger] index_set(s.push(x)).contains(y) == index_set(s).insert(x).contains(y) by {
        if s.push(x).contains(y) {
            let j = choose|j: int| 0 <= j < s.push(x).len() && #[trigger] s.push(x)[j] == y;
            if j < s.len() {
                assert(s[j] == y);
            }
        }
        if s.contains(y) {
            let j = choose|j: int| 0 <= j < s.len() && #[trigger] s[j] == y;
            assert(s.push(x)[j] == y);
        }
        if y == x {
            assert(s.push(x)[s.len() as int] == y);
        }
    }
    assert(index_set(s.push(x)) =~= index_set(s).insert(x));
}

/// Whether one of the first `n` indexes of the list is `x`.
pub open spec fn held_before(v: Seq<u32>, n: int, x: u32) -> bool {
    exists|j: int| 0 <= j < n && #[trigger] v[j] == x
}

/// Removes `k` from the list; returns whether it held `k`.
fn remove_index(v: &mut Vec<u32>, k: u32) -> (r: bool)
    ensures
        r == index_set(old(v)@).contains(k),
        index_set(final(v)@) == index_set(old(v)@).remove(k),
{
    let mut out: Vec<u32> = Vec::new();
    let mut found = false;
    let mut i: usize = 0;
    while i < v.len()
        invariant
            i <= v@.len(),
            found == held_before(v@, i as int, k),
            forall|x: u32| #[trigger] out@.contains(x) <==> (x != k && held_before(v@, i as int, x)),
        decreases v@.len() - i,
    {
        let x = v[i];
        let ghost before = out@;
        assert forall|y: u32| held_before(v@, i + 1, y) <==> (held_before(v@, i as int, y) || y == x) by {
            if held_before(v@, i + 1, y) {
                let j = choose|j: int| 0 <= j < i + 1 && #[trigger] v@[j] == y;
                if j < i {
                    assert(held_before(v@, i as int, y));
                }
            }
            if y == x {
                assert(v@[i as int] == y);
            }
        }
        if x == k {
            found = true;
        } else {
            out.push(x);
            assert forall|y: u32| #[trigger] out@.contains(y) <==> (before.contains(y) || y == x) by {
                if out@.contains(y) {
                    let j = choose|j: int| 0 <= j < out@.len() && #[trigger] out@[j] == y;
                    if j < before.len() {
                        assert(before[j] == y);
                    }
                }
                if before.contains(y) {
                    let j = choose|j: int| 0 <= j < before.len() && #[trigger] before[j] == y;
                    assert(out@[j] == y);
                }
                if y == x {
                    assert(out@[before.len() as int] == y);
                }
            }
        }
        i = i + 1;
    }
    assert forall|x: u32| v@.contains(x) <==> held_before(v@, v@.len() as int, x) by {
        if v@.contains(x) {
            let j = choose|j: int| 0 <= j < v@.len() && #[trigger] v@[j] == x;
            assert(held_before(v@, v@.len() as int, x));
        }
    }
    assert(index_set(out@) =~= index_set(v@).remove(k));
    *v = out;
    found
}

impl Journal {
    /// The invocation the journal belongs to.
    pub fn invocation(&self) -> (r: &Invocation)
        ensures
            r@ == spec_invocation_of(self@),
    {
        &self.invocation
    }

    /// A journal that replays the invocation's entries from the first.
    pub fn new(invocation: Invocation) -> (r: Self)
        requires
            invocation@.replay.contains_key(0),
        ensures
            r@.state == NewExecutionState::REPLAYING,
            r@.index == 0,
            r@.pending.dom() == Set::<u32>::empty(),
            r@.waiting == Set::<u32>::empty(),
            !r@.output_replayed,
            spec_invocation_of(r@) == invocation@,
    {
        let pending = map_new();
        let empty: Vec<u32> = Vec::new();
        assert(index_set(empty@) =~= Set::<u32>::empty());
        Journal {
            state: NewExecutionState::REPLAYING,
            user_code_journal_index: 0,
            pending_entries: pending,
            invocation,
            output_replayed: false,
            waiting: empty,
        }
    }

    fn transition_state(&mut self, new_state: NewExecutionState)
        ensures
            final(self)@ == (JournalV { state: spec_transition(old(self)@.state, new_state), ..old(self)@ }),
    {
        match self.state {
            NewExecutionState::CLOSED => {
                if self.state == new_state {
                    self.state = new_state;
                }
            },
            _ => {
                self.state = new_state;
            },
        }
    }

    /// Moves the index on to the next entry of the user code; the replay ends
    /// when the index reaches the number of entries to replay.
    pub fn increment_user_code_index(&mut self)
        requires
            old(self)@.index < u32::MAX,
        ensures
            final(self)@ == spec_incremented(old(self)@),
    {
        self.user_code_journal_index = self.user_code_journal_index + 1;
        if self.user_code_journal_index == self.invocation.entries_to_replay()
            && self.state == NewExecutionState::REPLAYING {
            self.transition_state(NewExecutionState::PROCESSING)
        }
    }

    /// Takes an entry of the user code. An index other than the current one
    /// makes a new entry: the index moves on, and the entry is replayed, kept
    /// to await its completion, or (an output) closes the journal. The current
    /// index resolves the entry kept at it.
    pub fn handle_user_code_message(&mut self, entry_index: u32, entry: Entry) -> (r: Option<Vec<u8>>)
        requires
            entry_index != old(self)@.index ==> old(self)@.index < u32::MAX,
        ensures
            entry_index == old(self)@.index ==> (final(self)@, opt_bytes_view(r)) == spec_resolve(old(self)@, entry_index),
            entry_index != old(self)@.index ==> (final(self)@, opt_bytes_view(r)) == spec_new_entry(
                spec_incremented(old(self)@),
                entry,
            ),
    {
        if entry_index != self.user_code_journal_index {
            self.increment_user_code_index();
            match self.state {
                NewExecutionState::REPLAYING => {
                    let ghost before = self@;
                    if let Some(replay_entry) = self.invocation.take_replay_entry(self.user_code_journal_index) {
                        return self.handle_replay(entry_index, replay_entry);
                    }
                    assert(self@.replay =~= before.replay);
                },
                NewExecutionState::PROCESSING => self.handle_processing(entry_index, entry),
                NewExecutionState::CLOSED => {},
            }
            None
        } else {
            self.resolve_result(entry_index)
        }
    }

    /// Resolves the entry kept at `entry_index`: it is no longer kept, and the
    /// user code gets its result where it has one.
    pub fn resolve_result(&mut self, entry_index: u32) -> (r: Option<Vec<u8>>)
        ensures
            (final(self)@, opt_bytes_view(r)) == spec_resolve(old(self)@, entry_index),
    {
        remove_index(&mut self.waiting, entry_index);
        match map_remove(&mut self.pending_entries, entry_index) {
            Some(pending) => pending_result(pending),
            None => None,
        }
    }

    fn handle_replay(&mut self, entry_index: u32, replay_entry: Entry) -> (r: Option<Vec<u8>>)
        ensures
            (final(self)@, opt_bytes_view(r)) == (match replay_entry@ {
                EntryV::Output { .. } => (
                    JournalV { output_replayed: true, ..spec_closed_by_output(old(self)@) },
                    spec_replay_result(replay_entry@),
                ),
                _ => (old(self)@, spec_replay_result(replay_entry@)),
            }),
    {
        match replay_entry {
            Entry::Output { result } => {
                self.handle_output_message(entry_index);
                self.output_replayed = true;
                match result {
                    EntryResult::Success(success) => Some(success),
                    EntryResult::Failure(_) => None,
                }
            },
            Entry::CompletePromise { completion, .. } => match completion {
                EntryResult::Success(value) => Some(value),
                EntryResult::Failure(_) => None,
            },
            other => pending_result(other),
        }
    }

    fn handle_processing(&mut self, entry_index: u32, entry: Entry)
        requires
            old(self)@.state == NewExecutionState::PROCESSING,
        ensures
            final(self)@ == spec_new_entry(old(self)@, entry).0,
    {
        match entry {
            Entry::Output { .. } => {
                self.handle_output_message(entry_index);
            },
            Entry::GetState { .. } | Entry::GetStateKeys { .. } | Entry::GetPromise { .. }
            | Entry::PeekPromise { .. } | Entry::CompletePromise { .. } | Entry::Sleep { .. }
            | Entry::Call { .. } | Entry::Awakeable { .. } => {
                self.append_entry(entry);
            },
            _ => {},
        }
    }

    /// Takes the runtime's completion of an entry. Returns whether an entry
    /// awaited it (the user code waiting on it is then to be woken).
    pub fn handle_runtime_completion_message(&mut self, message: CompletionMessage) -> (r: bool)
        requires
            old(self)@.pending.contains_key(message.entry_index) ==> spec_completion_readable(
                old(self)@.pending[message.entry_index]@,
                opt_view(message.result),
            ),
        ensures
            spec_completion_step(old(self)@, message.entry_index, opt_view(message.result), final(self)@, r),
    {
        let index = message.entry_index;
        match map_remove(&mut self.pending_entries, index) {
            Some(entry) => {
                let completed = apply_completion(entry, message.result);
                map_insert(&mut self.pending_entries, index, completed);
                proof {
                    assert(entries_of(self.pending_entries).dom() =~= old(self)@.pending.dom());
                }
                remove_index(&mut self.waiting, index)
            },
            None => {
                assert(entries_of(self.pending_entries) =~= old(self)@.pending);
                false
            },
        }
    }

    /// Takes the runtime's acknowledgement of an entry: it is no longer kept,
    /// and no user code waits on it any more. Returns whether user code waited
    /// on it (it is then to be woken).
    pub fn handle_runtime_entry_ack_message(&mut self, message: EntryAckMessage) -> (r: bool)
        ensures
            r == (old(self)@.pending.contains_key(message.entry_index) && old(self)@.waiting.contains(
                message.entry_index,
            )),
            final(self)@ == (JournalV {
                pending: old(self)@.pending.remove(message.entry_index),
                waiting: old(self)@.waiting.remove(message.entry_index),
                ..old(self)@
            }),
    {
        let kept = map_remove(&mut self.pending_entries, message.entry_index).is_some();
        let waited = remove_index(&mut self.waiting, message.entry_index);
        kept && waited
    }

    fn handle_output_message(&mut self, entry_index: u32)
        ensures
            final(self)@ == spec_closed_by_output(old(self)@),
    {
        self.transition_state(NewExecutionState::CLOSED);
        map_remove(&mut self.pending_entries, 0);
        remove_index(&mut self.waiting, 0);
    }

    /// Keeps an entry at the current index, to await its completion.
    pub fn append_entry(&mut self, entry: Entry)
        ensures
            final(self)@ == (JournalV {
                pending: old(self)@.pending.insert(old(self)@.index, entry),
                waiting: old(self)@.waiting.insert(old(self)@.index),
                ..old(self)@
            }),
    {
        map_insert(&mut self.pending_entries, self.user_code_journal_index, entry);
        let ghost before = self.waiting@;
        self.waiting.push(self.user_code_journal_index);
        proof {
            lemma_push_index(before, self.user_code_journal_index);
        }
    }

    /// Whether the completion can be applied to the entry it completes, if one
    /// is kept: a list of state keys must be readable.
    pub fn completion_readable(&self, message: &CompletionMessage) -> (r: bool)
        ensures
            r == (self@.pending.contains_key(message.entry_index) ==> spec_completion_readable(
                self@.pending[message.entry_index]@,
                opt_view(message.result),
            )),
    {
        match map_get_cloned(&self.pending_entries, message.entry_index) {
            Some(Entry::GetStateKeys { .. }) => match &message.result {
                Some(CompletionResult::Success(b)) => decode_state_keys(b.as_slice()).is_some(),
                _ => true,
            },
            _ => true,
        }
    }

    /// Whether the next replayed entry gives the user code a result.
    pub fn next_replay_result_known(&self) -> (r: bool)
        requires
            self@.index < u32::MAX,
        ensures
            r == spec_next_replay_result(self@) is Some,
    {
        let next = self.user_code_journal_index + 1;
        let replaying = self.state == NewExecutionState::REPLAYING && !(next == self.invocation.entries_to_replay());
        if !replaying {
            return false;
        }
        match self.invocation.replay_entry(next) {
            Some(e) => replay_result_known(&e),
            None => false,
        }
    }

    /// Whether an entry is kept at `index`.
    pub fn is_unresolved(&self, index: u32) -> (r: bool)
        ensures
            r == self@.pending.contains_key(index),
    {
        map_contains_key(&self.pending_entries, index)
    }

    pub fn is_closed(&self) -> (r: bool)
        ensures
            r == (self@.state == NewExecutionState::CLOSED),
    {
        self.state == NewExecutionState::CLOSED
    }

    pub fn is_processing(&self) -> (r: bool)
        ensures
            r == (self@.state == NewExecutionState::PROCESSING),
    {
        self.state == NewExecutionState::PROCESSING
    }

    pub fn is_replaying(&self) -> (r: bool)
        ensures
            r == (self@.state == NewExecutionState::REPLAYING),
    {
        self.state == NewExecutionState::REPLAYING
    }

    /// Whether the next entry of the user code will be replayed.
    pub fn is_next_entry_replaying(&self) -> (r: bool)
        ensures
            r == (self@.state == NewExecutionState::REPLAYING && self@.index + 1 < self@.entries_to_replay),
    {
        self.state == NewExecutionState::REPLAYING
            && (self.user_code_journal_index as u64) + 1 < self.invocation.entries_to_replay() as u64
    }

    /// Whether the replay held the invocation's output.
    pub fn is_output_replayed(&self) -> (r: bool)
        ensures
            r == self@.output_replayed,
    {
        self.output_replayed
    }

    pub fn get_state(&self) -> (r: NewExecutionState)
        ensures
            r == self@.state,
    {
        self.state
    }

    pub fn get_user_code_journal_index(&self) -> (r: u32)
        ensures
            r == self@.index,
    {
        self.user_code_journal_index
    }

    pub fn get_next_user_code_journal_index(&self) -> (r: u32)
        requires
            self@.index < u32::MAX,
        ensures
            r == self@.index + 1,
    {
        self.user_code_journal_index + 1
    }

    /// Closes the journal.
    pub fn close(&mut self)
        ensures
            final(self)@ == (JournalV { state: NewExecutionState::CLOSED, ..old(self)@ }),
    {
        self.transition_state(NewExecutionState::CLOSED);
    }
}

pub open spec fn opt_bytes_view(o: Option<Vec<u8>>) -> Option<Seq<u8>> {
    match o {
        Some(b) => Some(b@),
        None => None,
    }
}

/// The result an entry holds, as `spec_pending_result` says.
fn pending_result(e: Entry) -> (r: Option<Vec<u8>>)
    ensures
        opt_bytes_view(r) == spec_pending_result(e@),
{
    match e {
        Entry::GetState { value: Some(CompletionResult::Empty), .. } => Some(Vec::new()),
        Entry::GetState { value: Some(CompletionResult::Success(b)), .. } => Some(b),
        Entry::SetState { .. } | Entry::ClearState { .. } | Entry::ClearAllState => Some(Vec::new()),
        Entry::GetStateKeys { value: Some(_) } => Some(Vec::new()),
        Entry::GetPromise { value: Some(EntryResult::Success(b)), .. } => Some(b),
        Entry::PeekPromise { value: Some(CompletionResult::Empty), .. } => Some(Vec::new()),
        Entry::PeekPromise { value: Some(CompletionResult::Success(b)), .. } => Some(b),
        Entry::CompletePromise { value: Some(CompleteResult::Done), .. } => Some(Vec::new()),
        Entry::Sleep { result: Some(SleepResult::Fired), .. } => Some(Vec::new()),
        Entry::Call { result: Some(EntryResult::Success(b)), .. } => Some(b),
        Entry::Awakeable { result: Some(EntryResult::Success(b)) } => Some(b),
        Entry::Run { result: EntryResult::Success(b) } => Some(b),
        _ => None,
    }
}

/// Whether a replayed entry gives the user code a result.
fn replay_result_known(e: &Entry) -> (r: bool)
    ensures
        r == spec_replay_result(e@) is Some,
{
    match e {
        Entry::Output { result: EntryResult::Success(_) } => true,
        Entry::CompletePromise { completion: EntryResult::Success(_), .. } => true,
        Entry::CompletePromise { .. } => false,
        Entry::GetState { value: Some(CompletionResult::Empty), .. } => true,
        Entry::GetState { value: Some(CompletionResult::Success(_)), .. } => true,
        Entry::SetState { .. } | Entry::ClearState { .. } | Entry::ClearAllState => true,
        Entry::GetStateKeys { value: Some(_) } => true,
        Entry::GetPromise { value: Some(EntryResult::Success(_)), .. } => true,
        Entry::PeekPromise { value: Some(CompletionResult::Empty), .. } => true,
        Entry::PeekPromise { value: Some(CompletionResult::Success(_)), .. } => true,
        Entry::Sleep { result: Some(SleepResult::Fired), .. } => true,
        Entry::Call { result: Some(EntryResult::Success(_)), .. } => true,
        Entry::Awakeable { result: Some(EntryResult::Success(_)) } => true,
        Entry::Run { result: EntryResult::Success(_) } => true,
        _ => false,
    }
}

/// The entry a completion makes of a waiting entry, as `spec_apply_completion` says.
fn apply_completion(e: Entry, r: Option<CompletionResult>) -> (out: Entry)
    requires
        spec_completion_readable(e@, opt_view(r)),
    ensures
        out@ == spec_apply_completion(e@, opt_view(r)),
{
    let c = match r {
        None => return e,
        Some(c) => c,
    };
    match e {
        Entry::GetState { key, .. } => Entry::GetState { key, value: Some(c) },
        Entry::PeekPromise { key, .. } => Entry::PeekPromise { key, value: Some(c) },
        Entry::GetStateKeys { value } => match c {
            CompletionResult::Empty => {
                let keys: Vec<Vec<u8>> = Vec::new();
                assert(bytes_list_view(keys@) =~= Seq::<Seq<u8>>::empty());
                Entry::GetStateKeys { value: Some(GetStateKeysResult::Result(keys)) }
            },
            CompletionResult::Success(b) => match decode_state_keys(b.as_slice()) {
                Some(keys) => Entry::GetStateKeys { value: Some(GetStateKeysResult::Result(keys)) },
                None => vstd::pervasive::unreached(),
            },
            CompletionResult::Failure(f) => Entry::GetStateKeys { value: Some(GetStateKeysResult::Failure(f)) },
        },
        Entry::GetPromise { key, value } => match c {
            CompletionResult::Empty => Entry::GetPromise { key, value },
            CompletionResult::Success(b) => Entry::GetPromise { key, value: Some(EntryResult::Success(b)) },
            CompletionResult::Failure(f) => Entry::GetPromise { key, value: Some(EntryResult::Failure(f)) },
        },
        Entry::CompletePromise { key, completion, value } => match c {
            CompletionResult::Failure(f) => Entry::CompletePromise {
                key,
                completion,
                value: Some(CompleteResult::Failure(f)),
            },
            _ => Entry::CompletePromise { key, completion, value: Some(CompleteResult::Done) },
        },
        Entry::Sleep { wake_up_time, result } => match c {
            CompletionResult::Failure(_) => Entry::Sleep { wake_up_time, result },
            _ => Entry::Sleep { wake_up_time, result: Some(SleepResult::Fired) },
        },
        Entry::Call { request, result } => match c {
            CompletionResult::Empty => Entry::Call { request, result },
            CompletionResult::Success(b) => Entry::Call { request, result: Some(EntryResult::Success(b)) },
            CompletionResult::Failure(f) => Entry::Call { request, result: Some(EntryResult::Failure(f)) },
        },
        Entry::Awakeable { result } => match c {
            CompletionResult::Empty => Entry::Awakeable { result },
            CompletionResult::Success(b) => Entry::Awakeable { result: Some(EntryResult::Success(b)) },
            CompletionResult::Failure(f) => Entry::Awakeable { result: Some(EntryResult::Failure(f)) },
        },
        other => other,
    }
}


/// A closed journal stays closed: no transition leaves the closed state.
pub proof fn law_closed_is_final(to: NewExecutionState)
    ensures
        spec_transition(NewExecutionState::CLOSED, to) == NewExecutionState::CLOSED,
{
}

/// A closed journal stays closed whatever the user code does: a new entry, or
/// the resolution of a kept one.
pub proof fn law_closed_journal_stays_closed(v: JournalV, entry: Entry, index: u32)
    requires
        v.state == NewExecutionState::CLOSED,
    ensures
        spec_new_entry(spec_incremented(v), entry).0.state == NewExecutionState::CLOSED,
        spec_resolve(v, index).0.state == NewExecutionState::CLOSED,
{
}

/// Each new entry of the user code moves the index on by one.
pub proof fn law_new_entry_advances_index(v: JournalV, entry: Entry)
    requires
        v.index < u32::MAX,
    ensures
        spec_new_entry(spec_incremented(v), entry).0.index == v.index + 1,
{
}

/// The replay ends exactly when the index reaches the number of entries to
/// replay: before that the journal keeps replaying.
pub proof fn law_replay_ends_at_last_entry(v: JournalV)
    requires
        v.state == NewExecutionState::REPLAYING,
        v.index < u32::MAX,
    ensures
        spec_incremented(v).state == (if v.index + 1 == v.entries_to_replay {
            NewExecutionState::PROCESSING
        } else {
            NewExecutionState::REPLAYING
        }),
{
}

/// An entry the runtime completes with a value resolves to that value: a read
/// of state, a promise, a call or an awakeable.
pub proof fn law_completed_value_resolves(e: EntryV, value: Seq<u8>)
    requires
        e is GetState || e is PeekPromise || e is GetPromise || e is Call || e is Awakeable,
    ensures
        spec_pending_result(spec_apply_completion(e, Some(CompletionResultV::Success(value)))) == Some(value),
{
}

/// A sleep or the completion of a promise, once the runtime completes it
/// without a failure, resolves to empty bytes.
pub proof fn law_completed_timer_resolves(e: EntryV, c: CompletionResultV)
    requires
        e is Sleep || e is CompletePromise,
        !(c is Failure),
    ensures
        spec_pending_result(spec_apply_completion(e, Some(c))) == no_bytes(),
{
}

/// A read of state or of a promise, a call or an awakeable, that the runtime
/// completes with a failure, resolves to nothing.
pub proof fn law_failed_completion_resolves_to_nothing(e: EntryV, f: crate::entry::FailureV)
    requires
        e is GetState || e is PeekPromise || e is GetPromise || e is Call || e is Awakeable,
    ensures
        spec_pending_result(spec_apply_completion(e, Some(CompletionResultV::Failure(f)))) is None,
{
}

/// In the processing phase, each new entry whose result the runtime sends (a
/// read of state or of its keys, a read, peek or completion of a promise, a
/// sleep, a call, an awakeable) is kept, as it is, at its index, and the user
/// code waits on it; nothing is resolved yet.
pub proof fn law_awaited_entry_is_kept(v: JournalV, entry: Entry)
    requires
        v.state == NewExecutionState::PROCESSING,
        entry@ is GetState || entry@ is GetStateKeys || entry@ is GetPromise || entry@ is PeekPromise
            || entry@ is CompletePromise || entry@ is Sleep || entry@ is Call || entry@ is Awakeable,
    ensures
        spec_new_entry(v, entry).0.pending == v.pending.insert(v.index, entry),
        spec_new_entry(v, entry).0.waiting == v.waiting.insert(v.index),
        spec_new_entry(v, entry).0.state == NewExecutionState::PROCESSING,
        spec_new_entry(v, entry).1 is None,
{
}

/// In the processing phase, a new read of state, read or peek of a promise,
/// call or awakeable is kept so that the runtime's completion of its index with
/// a value wakes the user code waiting on it, and resolving the index then
/// gives that value.
pub proof fn law_awaited_entry_resolves_to_completed_value(
    v: JournalV,
    entry: Entry,
    value: Seq<u8>,
    w: JournalV,
    woken: bool,
)
    requires
        v.state == NewExecutionState::PROCESSING,
        entry@ is GetState || entry@ is GetPromise || entry@ is PeekPromise || entry@ is Call || entry@ is Awakeable,
        spec_completion_step(
            spec_new_entry(v, entry).0,
            v.index,
            Some(CompletionResultV::Success(value)),
            w,
            woken,
        ),
    ensures
        woken,
        w.pending.contains_key(v.index),
        spec_resolve(w, v.index).1 == Some(value),
{
    law_awaited_entry_is_kept(v, entry);
    law_completed_value_resolves(entry@, value);
}

/// A kept read of state or peek of a promise that the runtime completes with
/// `Empty` (no value yet) resolves to empty bytes, whatever its key and
/// whatever it held before.
pub proof fn law_empty_completion_resolves_to_empty_bytes(
    v: JournalV,
    index: u32,
    w: JournalV,
    woken: bool,
)
    requires
        v.pending.contains_key(index),
        v.pending[index]@ is GetState || v.pending[index]@ is PeekPromise,
        spec_completion_step(v, index, Some(CompletionResultV::Empty), w, woken),
    ensures
        spec_pending_result(spec_apply_completion(v.pending[index]@, Some(CompletionResultV::Empty)))
            == Some(Seq::<u8>::empty()),
        woken == v.waiting.contains(index),
        spec_resolve(w, index).1 == Some(Seq::<u8>::empty()),
{
}

/// A resolved entry is no longer kept: resolving it again gives nothing.
pub proof fn law_resolve_once(v: JournalV, index: u32)
    ensures
        spec_resolve(spec_resolve(v, index).0, index).1 is None,
{
}

/// A completion wakes the user code waiting on an entry at most once: a
/// second completion of the same entry wakes nobody, and the entry stays kept.
pub proof fn law_completion_wakes_once(
    v0: JournalV,
    index: u32,
    first: Option<CompletionResultV>,
    v1: JournalV,
    woken1: bool,
    second: Option<CompletionResultV>,
    v2: JournalV,
    woken2: bool,
)
    requires
        spec_completion_step(v0, index, first, v1, woken1),
        spec_completion_step(v1, index, second, v2, woken2),
    ensures
        !woken2,
        v0.pending.contains_key(index) ==> v2.pending.contains_key(index),
{
}

} // verus!
