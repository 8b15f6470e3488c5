//! The system calls of the user code: each is a future that, when polled, hands
//! its entry to the state machine and is ready once the entry's result is known.
//! The futures themselves (wakers, polling) live with the runtime of the
//! program; what a poll decides is here.

use vstd::prelude::*;
use crate::entry::{Entry, EntryResult};
use crate::journal::opt_bytes_view;
use crate::machine::{StateMachine, StateMachineV, spec_handle_user_code, opt_string_view};
use crate::journal::{JournalV, NewExecutionState, spec_new_entry, spec_incremented, spec_next_replay_result, spec_replay_next, lemma_replay_ignores_entry};

verus! {

/// A future whose entry has an index in the journal.
pub trait JournalIndex {
    fn entry_index(&self) -> u32;
}

/// What a future of the user code keeps between polls: whether it was polled,
/// and the index of its entry.
pub struct SyscallState {
    pub polled: bool,
    pub entry_index: u32,
}

impl SyscallState {
    /// A future not yet polled, its entry's index still to be learned.
    pub fn new() -> (r: Self)
        ensures
            r == (SyscallState { polled: false, entry_index: 0 }),
    {
        SyscallState { polled: false, entry_index: 0 }
    }

    /// A future not yet polled whose entry will have the given index.
    pub fn with_index(entry_index: u32) -> (r: Self)
        ensures
            r == (SyscallState { polled: false, entry_index }),
    {
        SyscallState { polled: false, entry_index }
    }
}

impl JournalIndex for SyscallState {
    /// The index of the future's entry, as kept.
    fn entry_index(&self) -> (r: u32)
        ensures
            r == self.entry_index,
    {
        self.entry_index
    }
}

/// The outcome of a poll.
#[derive(Debug, PartialEq, Eq)]
pub enum PollOutcome {
    /// The result is known.
    Ready(Vec<u8>),
    /// The result is awaited; `abort` says whether to abort the invocation.
    Pending { abort: bool },
}

/// What a poll of a future with state `call`, making entry `entry`, leaves: the
/// machine, the future's state, and the outcome (as `(result, abort)`).
pub open spec fn spec_poll(
    v: StateMachineV,
    call: SyscallState,
    name: Option<Seq<char>>,
    entry: Entry,
    keeps_index: bool,
) -> (StateMachineV, SyscallState, Option<Seq<u8>>, bool) {
    let idx = if call.polled {
        Some(call.entry_index)
    } else {
        None
    };
    let (m, i, res) = spec_handle_user_code(v, name, idx, entry);
    match res {
        Some(b) => (m, SyscallState { polled: true, ..call }, Some(b), false),
        None => {
            let abort = m.abort_on_replay && m.abort_armed;
            (
                StateMachineV { abort_armed: m.abort_armed && !abort, ..m },
                SyscallState { polled: true, entry_index: if keeps_index { i } else { call.entry_index } },
                None,
                abort,
            )
        },
    }
}

pub open spec fn outcome_view(o: PollOutcome) -> (Option<Seq<u8>>, bool) {
    match o {
        PollOutcome::Ready(b) => (Some(b@), false),
        PollOutcome::Pending { abort } => (None, abort),
    }
}

impl StateMachine {
    /// Polls a future that awaits its entry's result: the first poll makes the
    /// entry, later polls resolve it. Where the result is not known the future
    /// keeps its entry's index (unless `keeps_index` is off, for a future that
    /// knew it from the start) and the invocation may be aborted.
    pub fn poll_syscall(
        &mut self,
        call: &mut SyscallState,
        entry_name: Option<String>,
        entry: Entry,
        keeps_index: bool,
    ) -> (r: PollOutcome)
        requires
            !old(call).polled ==> old(self)@.journal.index < u32::MAX,
        ensures
            ({
                let (m, c, res, abort) = spec_poll(old(self)@, *old(call), opt_string_view(entry_name), entry, keeps_index);
                &&& final(self)@ == m
                &&& *final(call) == c
                &&& outcome_view(r) == (res, abort)
            }),
    {
        let index = if call.polled {
            Some(call.entry_index)
        } else {
            call.polled = true;
            None
        };
        let (entry_index, result) = self.handle_user_code_message(entry_name, index, entry);
        match result {
            Some(b) => PollOutcome::Ready(b),
            None => {
                if keeps_index {
                    call.entry_index = entry_index;
                }
                let abort = self.abort_on_replay();
                PollOutcome::Pending { abort }
            },
        }
    }

    /// Polls a future that only records its entry (setting or clearing state):
    /// it is ready at once.
    pub fn poll_record(&mut self, call: &mut SyscallState, entry_name: Option<String>, entry: Entry)
        requires
            !old(call).polled ==> old(self)@.journal.index < u32::MAX,
        ensures
            ({
                let idx = if old(call).polled {
                    Some(old(call).entry_index)
                } else {
                    None
                };
                &&& final(self)@ == spec_handle_user_code(old(self)@, opt_string_view(entry_name), idx, entry).0
                &&& *final(call) == (SyscallState { polled: true, ..*old(call) })
            }),
    {
        let index = if call.polled {
            Some(call.entry_index)
        } else {
            call.polled = true;
            None
        };
        self.handle_user_code_message(entry_name, index, entry);
    }
}

/// The step a poll of a side effect takes.
#[derive(Debug, PartialEq, Eq)]
pub enum RunStep {
    /// Start the action; it wakes the future when done.
    Start,
    /// The side effect's result is recorded, or replayed: this is its value.
    Ready(Vec<u8>),
    /// The action is running.
    Pending,
}

impl StateMachine {
    /// Whether a side effect polled now would get a replayed result: it is
    /// replayed and its replayed entry has one.
    pub fn replayed_run_ready(&self) -> (r: bool)
        requires
            self@.journal.index < u32::MAX,
        ensures
            r == (spec_next_replaying(self@.journal) && spec_next_replay_result(self@.journal) is Some),
    {
        self.is_next_entry_replaying() && self.journal_next_replay_result_known()
    }

    /// Polls a side effect. Where its entry is new, the first poll starts the
    /// action and a later poll, once the action's result is there, records it
    /// (the future then yields empty bytes). Where the entry is replayed, the
    /// replayed result is the value, and the action does not run.
    pub fn poll_run(&mut self, call: &mut SyscallState, entry_name: Option<String>, action_result: Option<EntryResult>) -> (r:
        RunStep)
        requires
            old(self)@.journal.index < u32::MAX,
            spec_next_replaying(old(self)@.journal) ==> spec_next_replay_result(old(self)@.journal) is Some,
        ensures
            final(call).polled,
            final(call).entry_index == old(call).entry_index,
            spec_next_replaying(old(self)@.journal) ==> {
                &&& final(self)@.journal == spec_replay_next(old(self)@.journal)
                &&& final(self)@ == crate::machine::with_journal(old(self)@, final(self)@.journal, old(self)@.outbox)
                &&& r matches RunStep::Ready(b) && Some(b@) == spec_next_replay_result(old(self)@.journal)
            },
            !spec_next_replaying(old(self)@.journal) && !old(call).polled ==> final(self)@ == old(self)@ && r
                == RunStep::Start,
            !spec_next_replaying(old(self)@.journal) && old(call).polled ==> match action_result {
                Some(result) => {
                    &&& final(self)@ == spec_handle_user_code(
                        old(self)@,
                        opt_string_view(entry_name),
                        None,
                        Entry::Run { result },
                    ).0
                    &&& r matches RunStep::Ready(b) && b@ == Seq::<u8>::empty()
                },
                None => final(self)@ == old(self)@ && r == RunStep::Pending,
            },
    {
        let running = call.polled;
        call.polled = true;
        if !self.is_next_entry_replaying() {
            if !running {
                RunStep::Start
            } else {
                match action_result {
                    Some(result) => {
                        self.handle_user_code_message(entry_name, None, Entry::Run { result });
                        RunStep::Ready(Vec::new())
                    },
                    None => RunStep::Pending,
                }
            }
        } else {
            let entry = Entry::Run { result: EntryResult::Success(Vec::new()) };
            proof {
                lemma_replay_ignores_entry(old(self)@.journal, entry, Entry::ClearAllState);
            }
            let (_, result) = self.handle_user_code_message(entry_name, None, entry);
            match result {
                Some(b) => RunStep::Ready(b),
                None => vstd::pervasive::unreached(),
            }
        }
    }
}

/// Whether the next entry of the user code is replayed.
pub open spec fn spec_next_replaying(j: JournalV) -> bool {
    j.state == NewExecutionState::REPLAYING && j.index + 1 < j.entries_to_replay
}

/// What a peek of a promise gives: nothing where the resolved value is empty
/// (the promise is not resolved), else the value.
pub fn peeked_value(result: Vec<u8>) -> (r: Option<Vec<u8>>)
    ensures
        result@.len() == 0 ==> r is None,
        result@.len() > 0 ==> r == Some(result),
{
    if result.len() == 0 {
        None
    } else {
        Some(result)
    }
}

/// The time to wake up at, in milliseconds since the epoch: `timeout_millis`
/// from `now_millis`.
pub fn wake_up_time(now_millis: u64, timeout_millis: u64) -> (r: u64)
    requires
        now_millis + timeout_millis <= u64::MAX,
    ensures
        r == now_millis + timeout_millis,
{
    now_millis + timeout_millis
}

} // verus!
