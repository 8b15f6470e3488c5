//! The local copy of an invocation's state, which lets reads of state be
//! answered without asking the runtime.

use vstd::prelude::*;
use crate::entry::{Entry, EntryV, CompletionResult, CompletionResultV, GetStateKeysResult, GetStateKeysResultV, opt_view, bytes_list_view};
use crate::codec::{string_bytes, string_from_utf8};

verus! {

/// A state entry as the start message carries it: key and value bytes.
#[derive(Clone, Debug, PartialEq, Eq)]
pub struct StateEntry {
    pub key: Vec<u8>,
    pub value: Vec<u8>,
}

pub open spec fn opt_bytes_view(v: Option<Vec<u8>>) -> Option<Seq<u8>> {
    match v {
        Some(b) => Some(b@),
        None => None,
    }
}

/// The map that a list of entries describes; a later entry of a key wins.
pub open spec fn entries_map(s: Seq<(String, Option<Vec<u8>>)>) -> Map<Seq<char>, Option<Seq<u8>>>
    decreases s.len(),
{
    if s.len() == 0 {
        Map::empty()
    } else {
        entries_map(s.drop_last()).insert(s.last().0@, opt_bytes_view(s.last().1))
    }
}

/// No key occurs twice.
pub open spec fn unique_keys(s: Seq<(String, Option<Vec<u8>>)>) -> bool {
    forall|i: int, j: int| 0 <= i < s.len() && 0 <= j < s.len() && i != j ==> s[i].0@ != s[j].0@
}

proof fn lemma_entries_map_dom(s: Seq<(String, Option<Vec<u8>>)>)
    ensures
        forall|k: Seq<char>| #[trigger] entries_map(s).dom().contains(k) <==> exists|i: int| 0 <= i < s.len() && s[i].0@ == k,
        entries_map(s).dom().finite(),
    decreases s.len(),
{
    if s.len() > 0 {
        lemma_entries_map_dom(s.drop_last());
        assert forall|k: Seq<char>| #[trigger] entries_map(s).dom().contains(k) <==> exists|i: int| 0 <= i < s.len() && s[i].0@ == k by {
            if entries_map(s).dom().contains(k) {
                if k == s.last().0@ {
                    assert(s[s.len() - 1].0@ == k);
                } else {
                    let i = choose|i: int| 0 <= i < s.drop_last().len() && s.drop_last()[i].0@ == k;
                    assert(s[i] == s.drop_last()[i]);
                }
            }
            if exists|i: int| 0 <= i < s.len() && s[i].0@ == k {
                let i = choose|i: int| 0 <= i < s.len() && s[i].0@ == k;
                if i < s.len() - 1 {
                    assert(s.drop_last()[i] == s[i]);
                }
            }
        }
    }
}

proof fn lemma_entries_map_lookup(s: Seq<(String, Option<Vec<u8>>)>, i: int)
    requires
        unique_keys(s),
        0 <= i < s.len(),
    ensures
        entries_map(s).dom().contains(s[i].0@),
        entries_map(s)[s[i].0@] == opt_bytes_view(s[i].1),
    decreases s.len(),
{
    if i < s.len() - 1 {
        assert(unique_keys(s.drop_last())) by {
            assert forall|a: int, b: int| 0 <= a < s.drop_last().len() && 0 <= b < s.drop_last().len() && a != b implies s.drop_last()[a].0@ != s.drop_last()[b].0@ by {
                assert(s.drop_last()[a] == s[a]);
                assert(s.drop_last()[b] == s[b]);
            }
        }
        assert(s.drop_last()[i] == s[i]);
        lemma_entries_map_lookup(s.drop_last(), i);
        assert(s[i].0@ != s[s.len() - 1].0@);
    }
}

proof fn lemma_entries_map_update(s: Seq<(String, Option<Vec<u8>>)>, i: int, e: (String, Option<Vec<u8>>))
    requires
        unique_keys(s),
        0 <= i < s.len(),
        e.0@ == s[i].0@,
    ensures
        entries_map(s.update(i, e)) == entries_map(s).insert(e.0@, opt_bytes_view(e.1)),
        unique_keys(s.update(i, e)),
    decreases s.len(),
{
    let t = s.update(i, e);
    assert(unique_keys(t)) by {
        assert forall|a: int, b: int| 0 <= a < t.len() && 0 <= b < t.len() && a != b implies t[a].0@ != t[b].0@ by {
            if a == i {
                assert(s[b] == t[b]);
            } else if b == i {
                assert(s[a] == t[a]);
            } else {
                assert(s[a] == t[a] && s[b] == t[b]);
            }
        }
    }
    if i == s.len() - 1 {
        assert(t.drop_last() =~= s.drop_last());
        assert(entries_map(t) =~= entries_map(s).insert(e.0@, opt_bytes_view(e.1)));
    } else {
        let sd = s.drop_last();
        assert(unique_keys(sd)) by {
            assert forall|a: int, b: int| 0 <= a < sd.len() && 0 <= b < sd.len() && a != b implies sd[a].0@ != sd[b].0@ by {
                assert(sd[a] == s[a]);
                assert(sd[b] == s[b]);
            }
        }
        assert(sd[i] == s[i]);
        lemma_entries_map_update(sd, i, e);
        assert(t.drop_last() =~= sd.update(i, e));
        assert(t.last() == s.last());
        assert(s.last().0@ != e.0@) by {
            assert(s[s.len() - 1].0@ != s[i].0@);
        }
        assert(entries_map(t) =~= entries_map(s).insert(e.0@, opt_bytes_view(e.1)));
    }
}

/// What a read of `key` gives from a store that knows `state` (all of the
/// state, or only part of it where `partial`): the value, `Empty` for a cleared
/// key, or for an unknown key `Empty` when the store holds the whole state and
/// nothing (the runtime must be asked) when it holds only part.
pub open spec fn state_lookup(state: Map<Seq<char>, Option<Seq<u8>>>, partial: bool, key: Seq<char>) -> Option<
    CompletionResultV,
> {
    if state.dom().contains(key) {
        match state[key] {
            Some(b) => Some(CompletionResultV::Success(b)),
            None => Some(CompletionResultV::Empty),
        }
    } else if partial {
        None
    } else {
        Some(CompletionResultV::Empty)
    }
}

/// A read of a key gives back the value last set for it (by `set` or `add`).
pub proof fn law_read_after_set(state: Map<Seq<char>, Option<Seq<u8>>>, partial: bool, key: Seq<char>, value: Seq<u8>)
    ensures
        state_lookup(state.insert(key, Some(value)), partial, key) == Some(CompletionResultV::Success(value)),
{
}

/// A read of a key that was cleared gives `Empty`, whether or not the store
/// holds the whole state.
pub proof fn law_read_after_clear(state: Map<Seq<char>, Option<Seq<u8>>>, partial: bool, key: Seq<char>)
    ensures
        state_lookup(state.insert(key, None), partial, key) == Some(CompletionResultV::Empty),
{
}

/// Writing one key leaves the reads of every other key as they were.
pub proof fn law_other_keys_unchanged(
    state: Map<Seq<char>, Option<Seq<u8>>>,
    partial: bool,
    key: Seq<char>,
    v: Option<Seq<u8>>,
    other: Seq<char>,
)
    requires
        other != key,
    ensures
        state_lookup(state.insert(key, v), partial, other) == state_lookup(state, partial, other),
{
}

/// After everything is cleared, a read gives `Empty` from a store that holds
/// the whole state and must go to the runtime from one that holds only part.
pub proof fn law_read_after_clear_all(partial: bool, key: Seq<char>)
    ensures
        state_lookup(Map::empty(), partial, key) == if partial {
            None
        } else {
            Some(CompletionResultV::Empty)
        },
{
}

/// `ks` lists the UTF-8 encodings of the keys `dom`, as many as there are keys.
pub open spec fn lists_keys(ks: Seq<Seq<u8>>, dom: Set<Seq<char>>) -> bool {
    &&& ks.len() == dom.len()
    &&& forall|i: int| 0 <= i < ks.len() ==> vstd::utf8::valid_utf8(#[trigger] ks[i]) && dom.contains(
        vstd::utf8::decode_utf8(ks[i]),
    )
    &&& forall|k: Seq<char>| #[trigger] dom.contains(k) ==> ks.contains(vstd::utf8::encode_utf8(k))
}

/// The state that the entries of a start message describe.
pub open spec fn start_state_map(s: Seq<StateEntry>) -> Map<Seq<char>, Option<Seq<u8>>>
    decreases s.len(),
{
    if s.len() == 0 {
        Map::empty()
    } else {
        start_state_map(s.drop_last()).insert(vstd::utf8::decode_utf8(s.last().key@), Some(s.last().value@))
    }
}

proof fn lemma_unique_keys_len(s: Seq<(String, Option<Vec<u8>>)>)
    requires
        unique_keys(s),
    ensures
        entries_map(s).dom().len() == s.len(),
    decreases s.len(),
{
    if s.len() > 0 {
        let sd = s.drop_last();
        assert(unique_keys(sd)) by {
            assert forall|a: int, b: int| 0 <= a < sd.len() && 0 <= b < sd.len() && a != b implies sd[a].0@ != sd[b].0@ by {
                assert(sd[a] == s[a]);
                assert(sd[b] == s[b]);
            }
        }
        lemma_unique_keys_len(sd);
        lemma_entries_map_dom(sd);
        assert(!entries_map(sd).dom().contains(s.last().0@)) by {
            if entries_map(sd).dom().contains(s.last().0@) {
                let i = choose|i: int| 0 <= i < sd.len() && sd[i].0@ == s.last().0@;
                assert(sd[i] == s[i]);
                assert(s[i].0@ != s[s.len() - 1].0@);
            }
        }
    }
}

/// The local copy of the state: whether it holds only part of the state, and the
/// entries it holds (a key mapped to `None` was cleared).
pub struct LocalStateStore {
    is_partial: bool,
    state: Vec<(String, Option<Vec<u8>>)>,
}

impl LocalStateStore {
    /// The state the store knows of: a key maps to its value, or to `None` where
    /// it was cleared.
    pub closed spec fn spec_state(&self) -> Map<Seq<char>, Option<Seq<u8>>> {
        entries_map(self.state@)
    }

    pub closed spec fn spec_is_partial(&self) -> bool {
        self.is_partial
    }

    pub closed spec fn wf(&self) -> bool {
        unique_keys(self.state@)
    }

    /// What a read of `key` from the store gives: the value, `Empty` for a
    /// cleared key, or for an unknown key `Empty` when the store holds the whole
    /// state and nothing (the runtime must be asked) when it holds only part.
    pub open spec fn spec_lookup(&self, key: Seq<char>) -> Option<CompletionResultV> {
        state_lookup(self.spec_state(), self.spec_is_partial(), key)
    }

    /// A store holding the given state entries (a later entry of a key wins).
    pub fn new(is_partial: bool, state: Vec<StateEntry>) -> (r: Self)
        requires
            forall|i: int| 0 <= i < state@.len() ==> vstd::utf8::valid_utf8(#[trigger] state@[i].key@),
        ensures
            r.wf(),
            r.spec_is_partial() == is_partial,
            r.spec_state() == start_state_map(state@),
    {
        let mut store = LocalStateStore { is_partial, state: Vec::new() };
        assert(store.spec_state() =~= start_state_map(state@.take(0)));
        let mut i: usize = 0;
        while i < state.len()
            invariant
                i <= state@.len(),
                store.wf(),
                store.spec_is_partial() == is_partial,
                store.spec_state() == start_state_map(state@.take(i as int)),
                forall|j: int| 0 <= j < state@.len() ==> vstd::utf8::valid_utf8(#[trigger] state@[j].key@),
            decreases state@.len() - i,
        {
            let key = string_from_utf8(crate::wire::copy_range(state[i].key.as_slice(), 0, state[i].key.len()));
            assert(state[i as int].key@.subrange(0, state[i as int].key@.len() as int) =~= state[i as int].key@);
            let key = match key {
                Some(k) => k,
                None => {
                    assert(vstd::utf8::valid_utf8(state@[i as int].key@));
                    return store;
                },
            };
            let value = crate::wire::copy_range(state[i].value.as_slice(), 0, state[i].value.len());
            assert(state[i as int].value@.subrange(0, state[i as int].value@.len() as int) =~= state[i as int].value@);
            store.put(key, Some(value));
            assert(state@.take(i + 1).drop_last() =~= state@.take(i as int));
            i = i + 1;
        }
        assert(state@.take(state@.len() as int) =~= state@);
        store
    }

    /// Answers a read of `key` from the store where it can: sets the read's
    /// result and returns `true`; returns `false`, leaving it unset, where the
    /// runtime must be asked.
    pub fn try_complete_get(&self, key: &String, value: &mut Option<CompletionResult>) -> (r: bool)
        requires
            self.wf(),
        ensures
            r == self.spec_lookup(key@) is Some,
            r ==> opt_view(*final(value)) == self.spec_lookup(key@),
            !r ==> *final(value) == *old(value),
    {
        match self.find(key) {
            Some(i) => {
                proof {
                    lemma_entries_map_lookup(self.state@, i as int);
                }
                match &self.state[i].1 {
                    Some(b) => {
                        *value = Some(CompletionResult::Success(crate::wire::copy_range(b.as_slice(), 0, b.len())));
                        assert(b@.subrange(0, b@.len() as int) =~= b@);
                    },
                    None => {
                        *value = Some(CompletionResult::Empty);
                    },
                }
                true
            },
            None => {
                if self.is_partial {
                    false
                } else {
                    *value = Some(CompletionResult::Empty);
                    true
                }
            },
        }
    }

    /// Answers a listing of the state keys where the store holds the whole
    /// state: sets the result to the keys (a cleared key included) and returns
    /// `true`; returns `false`, leaving it unset, where the store holds only part.
    pub fn try_complete_get_keys(&self, value: &mut Option<GetStateKeysResult>) -> (r: bool)
        requires
            self.wf(),
        ensures
            r == !self.spec_is_partial(),
            !r ==> *final(value) == *old(value),
            r ==> (*final(value) matches Some(GetStateKeysResult::Result(keys)) && lists_keys(bytes_list_view(keys@), self.spec_state().dom())),
    {
        if self.is_partial {
            return false;
        }
        let mut keys: Vec<Vec<u8>> = Vec::new();
        let mut i: usize = 0;
        while i < self.state.len()
            invariant
                i <= self.state@.len(),
                keys@.len() == i,
                forall|j: int| 0 <= j < i ==> #[trigger] keys@[j]@ == vstd::utf8::encode_utf8(self.state@[j].0@),
            decreases self.state@.len() - i,
        {
            keys.push(string_bytes(&self.state[i].0));
            i = i + 1;
        }
        proof {
            lemma_entries_map_dom(self.state@);
            lemma_unique_keys_len(self.state@);
            let ks = bytes_list_view(keys@);
            let dom = self.spec_state().dom();
            assert(ks.len() == keys@.len());
            assert forall|i: int| 0 <= i < ks.len() implies vstd::utf8::valid_utf8(#[trigger] ks[i]) && dom.contains(
                vstd::utf8::decode_utf8(ks[i]),
            ) by {
                assert(ks[i] == keys@[i]@);
                let k = self.state@[i].0@;
                vstd::utf8::encode_utf8_valid_utf8(k);
                vstd::utf8::encode_utf8_decode_utf8(k);
                assert(dom.contains(k));
            }
            assert forall|k: Seq<char>| #[trigger] dom.contains(k) implies ks.contains(vstd::utf8::encode_utf8(k)) by {
                let j = choose|j: int| 0 <= j < self.state@.len() && self.state@[j].0@ == k;
                assert(ks[j] == keys@[j]@);
                assert(ks[j] == vstd::utf8::encode_utf8(k));
            }
            assert(lists_keys(ks, dom));
        }
        *value = Some(GetStateKeysResult::Result(keys));
        true
    }

    /// Sets `key` to `value` (the serialized value) and returns the entry that
    /// records it.
    pub fn set(&mut self, key: String, value: Vec<u8>) -> (r: Entry)
        requires
            old(self).wf(),
        ensures
            final(self).wf(),
            final(self).spec_is_partial() == old(self).spec_is_partial(),
            final(self).spec_state() == old(self).spec_state().insert(key@, Some(value@)),
            r@ == (EntryV::SetState { key: vstd::utf8::encode_utf8(key@), value: value@ }),
    {
        let entry = Entry::SetState {
            key: string_bytes(&key),
            value: crate::wire::copy_range(value.as_slice(), 0, value.len()),
        };
        assert(value@.subrange(0, value@.len() as int) =~= value@);
        self.put(key, Some(value));
        entry
    }

    /// Records a value read from the runtime.
    pub fn add(&mut self, key: String, value: Vec<u8>)
        requires
            old(self).wf(),
        ensures
            final(self).wf(),
            final(self).spec_is_partial() == old(self).spec_is_partial(),
            final(self).spec_state() == old(self).spec_state().insert(key@, Some(value@)),
    {
        self.put(key, Some(value));
    }

    /// Clears `key` and returns the entry that records it.
    pub fn clear(&mut self, key: String) -> (r: Entry)
        requires
            old(self).wf(),
        ensures
            final(self).wf(),
            final(self).spec_is_partial() == old(self).spec_is_partial(),
            final(self).spec_state() == old(self).spec_state().insert(key@, None),
            r@ == (EntryV::ClearState { key: vstd::utf8::encode_utf8(key@) }),
    {
        let entry = Entry::ClearState { key: string_bytes(&key) };
        self.put(key, None);
        entry
    }

    /// Forgets every entry.
    pub fn clear_all(&mut self)
        ensures
            final(self).wf(),
            final(self).spec_is_partial() == old(self).spec_is_partial(),
            final(self).spec_state() == Map::<Seq<char>, Option<Seq<u8>>>::empty(),
    {
        self.state = Vec::new();
        assert(self.spec_state() =~= Map::<Seq<char>, Option<Seq<u8>>>::empty());
    }

    fn find(&self, key: &String) -> (r: Option<usize>)
        requires
            self.wf(),
        ensures
            match r {
                Some(i) => i < self.state@.len() && self.state@[i as int].0@ == key@,
                None => !self.spec_state().dom().contains(key@),
            },
    {
        let mut i: usize = 0;
        while i < self.state.len()
            invariant
                i <= self.state@.len(),
                forall|j: int| 0 <= j < i ==> self.state@[j].0@ != key@,
            decreases self.state@.len() - i,
        {
            if self.state[i].0 == *key {
                return Some(i);
            }
            i = i + 1;
        }
        proof {
            lemma_entries_map_dom(self.state@);
        }
        None
    }

    fn put(&mut self, key: String, value: Option<Vec<u8>>)
        requires
            old(self).wf(),
        ensures
            final(self).wf(),
            final(self).spec_is_partial() == old(self).spec_is_partial(),
            final(self).spec_state() == old(self).spec_state().insert(key@, opt_bytes_view(value)),
    {
        match self.find(&key) {
            Some(i) => {
                let ghost k = key@;
                let ghost vv = opt_bytes_view(value);
                let ghost e = (key, value);
                proof {
                    lemma_entries_map_update(self.state@, i as int, e);
                }
                self.state.set(i, (key, value));
                assert(self.state@ == old(self).state@.update(i as int, e));
            },
            None => {
                let ghost before = self.state@;
                proof {
                    lemma_entries_map_dom(before);
                }
                let ghost e = (key, value);
                self.state.push((key, value));
                assert(self.state@.drop_last() =~= before);
                assert forall|a: int, b: int| 0 <= a < self.state@.len() && 0 <= b < self.state@.len() && a != b implies self.state@[a].0@ != self.state@[b].0@ by {
                    if a == before.len() {
                        assert(self.state@[b] == before[b]);
                    } else if b == before.len() {
                        assert(self.state@[a] == before[a]);
                    } else {
                        assert(self.state@[a] == before[a] && self.state@[b] == before[b]);
                    }
                }
            },
        }
    }
}

} // verus!
