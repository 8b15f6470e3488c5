//! Journal entries: the records an invocation's journal is made of, in the form
//! the state machine works with.

use vstd::prelude::*;
use crate::types::Header;

verus! {

/// The kind of a journal entry.
#[derive(Clone, Copy, Debug, PartialEq, Eq, Structural)]
pub enum EntryType {
    Input,
    Output,
    GetState,
    SetState,
    ClearState,
    ClearAllState,
    GetStateKeys,
    GetPromise,
    PeekPromise,
    CompletePromise,
    Sleep,
    Call,
    OneWayCall,
    Awakeable,
    CompleteAwakeable,
    Run,
    Custom,
}

impl EntryType {
    /// Entries of these kinds are completed by the runtime.
    pub open spec fn spec_is_completable(self) -> bool {
        match self {
            EntryType::GetState | EntryType::GetStateKeys | EntryType::GetPromise
            | EntryType::PeekPromise | EntryType::CompletePromise | EntryType::Sleep
            | EntryType::Call | EntryType::Awakeable => true,
            _ => false,
        }
    }

    pub fn is_completable(&self) -> (r: bool)
        ensures
            r == self.spec_is_completable(),
    {
        match self {
            EntryType::GetState | EntryType::GetStateKeys | EntryType::GetPromise
            | EntryType::PeekPromise | EntryType::CompletePromise | EntryType::Sleep
            | EntryType::Call | EntryType::Awakeable => true,
            _ => false,
        }
    }
}

/// A failure: a code and a message.
#[derive(Clone, Debug, PartialEq, Eq)]
pub struct Failure {
    pub code: u32,
    pub message: String,
}

pub struct FailureV {
    pub code: u32,
    pub message: Seq<char>,
}

impl View for Failure {
    type V = FailureV;

    open spec fn view(&self) -> FailureV {
        FailureV { code: self.code, message: self.message@ }
    }
}

/// The result of a lookup that may find nothing.
#[derive(Clone, Debug, PartialEq, Eq)]
pub enum CompletionResult {
    Empty,
    Success(Vec<u8>),
    Failure(Failure),
}

pub enum CompletionResultV {
    Empty,
    Success(Seq<u8>),
    Failure(FailureV),
}

impl View for CompletionResult {
    type V = CompletionResultV;

    open spec fn view(&self) -> CompletionResultV {
        match self {
            CompletionResult::Empty => CompletionResultV::Empty,
            CompletionResult::Success(b) => CompletionResultV::Success(b@),
            CompletionResult::Failure(f) => CompletionResultV::Failure(f@),
        }
    }
}

/// The result of an operation that yields a value or fails.
#[derive(Clone, Debug, PartialEq, Eq)]
pub enum EntryResult {
    Success(Vec<u8>),
    Failure(Failure),
}

pub enum EntryResultV {
    Success(Seq<u8>),
    Failure(FailureV),
}

impl View for EntryResult {
    type V = EntryResultV;

    open spec fn view(&self) -> EntryResultV {
        match self {
            EntryResult::Success(b) => EntryResultV::Success(b@),
            EntryResult::Failure(f) => EntryResultV::Failure(f@),
        }
    }
}

/// The result of listing the state keys.
#[derive(Clone, Debug, PartialEq, Eq)]
pub enum GetStateKeysResult {
    Result(Vec<Vec<u8>>),
    Failure(Failure),
}

pub enum GetStateKeysResultV {
    Result(Seq<Seq<u8>>),
    Failure(FailureV),
}

pub open spec fn bytes_list_view(v: Seq<Vec<u8>>) -> Seq<Seq<u8>> {
    v.map_values(|b: Vec<u8>| b@)
}

impl View for GetStateKeysResult {
    type V = GetStateKeysResultV;

    open spec fn view(&self) -> GetStateKeysResultV {
        match self {
            GetStateKeysResult::Result(keys) => GetStateKeysResultV::Result(bytes_list_view(keys@)),
            GetStateKeysResult::Failure(f) => GetStateKeysResultV::Failure(f@),
        }
    }
}

/// The result of a sleep.
#[derive(Clone, Debug, PartialEq, Eq)]
pub enum SleepResult {
    Fired,
    Failure(Failure),
}

pub enum SleepResultV {
    Fired,
    Failure(FailureV),
}

impl View for SleepResult {
    type V = SleepResultV;

    open spec fn view(&self) -> SleepResultV {
        match self {
            SleepResult::Fired => SleepResultV::Fired,
            SleepResult::Failure(f) => SleepResultV::Failure(f@),
        }
    }
}

/// The result of completing a promise.
#[derive(Clone, Debug, PartialEq, Eq)]
pub enum CompleteResult {
    Done,
    Failure(Failure),
}

pub enum CompleteResultV {
    Done,
    Failure(FailureV),
}

impl View for CompleteResult {
    type V = CompleteResultV;

    open spec fn view(&self) -> CompleteResultV {
        match self {
            CompleteResult::Done => CompleteResultV::Done,
            CompleteResult::Failure(f) => CompleteResultV::Failure(f@),
        }
    }
}

/// A request to call a handler.
#[derive(Clone, Debug, PartialEq, Eq)]
pub struct InvokeRequest {
    pub service_name: String,
    pub handler_name: String,
    pub parameter: Vec<u8>,
    pub headers: Vec<Header>,
    pub key: String,
}

pub struct HeaderV {
    pub name: Seq<char>,
    pub value: Seq<char>,
}

pub open spec fn header_view(h: Header) -> HeaderV {
    HeaderV { name: h.name@, value: h.value@ }
}

pub open spec fn headers_view(hs: Seq<Header>) -> Seq<HeaderV> {
    hs.map_values(|h: Header| header_view(h))
}

pub struct InvokeRequestV {
    pub service_name: Seq<char>,
    pub handler_name: Seq<char>,
    pub parameter: Seq<u8>,
    pub headers: Seq<HeaderV>,
    pub key: Seq<char>,
}

impl View for InvokeRequest {
    type V = InvokeRequestV;

    open spec fn view(&self) -> InvokeRequestV {
        InvokeRequestV {
            service_name: self.service_name@,
            handler_name: self.handler_name@,
            parameter: self.parameter@,
            headers: headers_view(self.headers@),
            key: self.key@,
        }
    }
}

/// A journal entry, with the result it was completed with where it has one.
#[derive(Clone, Debug, PartialEq, Eq)]
#[allow(inconsistent_fields)]
pub enum Entry {
    Input { headers: Vec<Header>, value: Vec<u8> },
    Output { result: EntryResult },
    GetState { key: Vec<u8>, value: Option<CompletionResult> },
    SetState { key: Vec<u8>, value: Vec<u8> },
    ClearState { key: Vec<u8> },
    GetStateKeys { value: Option<GetStateKeysResult> },
    ClearAllState,
    GetPromise { key: String, value: Option<EntryResult> },
    PeekPromise { key: String, value: Option<CompletionResult> },
    CompletePromise { key: String, completion: EntryResult, value: Option<CompleteResult> },
    Sleep { wake_up_time: u64, result: Option<SleepResult> },
    Call { request: InvokeRequest, result: Option<EntryResult> },
    OneWayCall { request: InvokeRequest, invoke_time: u64 },
    Awakeable { result: Option<EntryResult> },
    CompleteAwakeable { id: String, result: EntryResult },
    Run { result: EntryResult },
    Custom { value: Vec<u8> },
}

pub open spec fn opt_view<T: View>(o: Option<T>) -> Option<T::V> {
    match o {
        Some(t) => Some(t@),
        None => None,
    }
}

#[allow(inconsistent_fields)]
pub enum EntryV {
    Input { headers: Seq<HeaderV>, value: Seq<u8> },
    Output { result: EntryResultV },
    GetState { key: Seq<u8>, value: Option<CompletionResultV> },
    SetState { key: Seq<u8>, value: Seq<u8> },
    ClearState { key: Seq<u8> },
    GetStateKeys { value: Option<GetStateKeysResultV> },
    ClearAllState,
    GetPromise { key: Seq<char>, value: Option<EntryResultV> },
    PeekPromise { key: Seq<char>, value: Option<CompletionResultV> },
    CompletePromise { key: Seq<char>, completion: EntryResultV, value: Option<CompleteResultV> },
    Sleep { wake_up_time: u64, result: Option<SleepResultV> },
    Call { request: InvokeRequestV, result: Option<EntryResultV> },
    OneWayCall { request: InvokeRequestV, invoke_time: u64 },
    Awakeable { result: Option<EntryResultV> },
    CompleteAwakeable { id: Seq<char>, result: EntryResultV },
    Run { result: EntryResultV },
    Custom { value: Seq<u8> },
}

impl View for Entry {
    type V = EntryV;

    open spec fn view(&self) -> EntryV {
        match self {
            Entry::Input { headers, value } => EntryV::Input { headers: headers_view(headers@), value: value@ },
            Entry::Output { result } => EntryV::Output { result: result@ },
            Entry::GetState { key, value } => EntryV::GetState { key: key@, value: opt_view(*value) },
            Entry::SetState { key, value } => EntryV::SetState { key: key@, value: value@ },
            Entry::ClearState { key } => EntryV::ClearState { key: key@ },
            Entry::GetStateKeys { value } => EntryV::GetStateKeys { value: opt_view(*value) },
            Entry::ClearAllState => EntryV::ClearAllState,
            Entry::GetPromise { key, value } => EntryV::GetPromise { key: key@, value: opt_view(*value) },
            Entry::PeekPromise { key, value } => EntryV::PeekPromise { key: key@, value: opt_view(*value) },
            Entry::CompletePromise { key, completion, value } => EntryV::CompletePromise {
                key: key@,
                completion: completion@,
                value: opt_view(*value),
            },
            Entry::Sleep { wake_up_time, result } => EntryV::Sleep {
                wake_up_time: *wake_up_time,
                result: opt_view(*result),
            },
            Entry::Call { request, result } => EntryV::Call { request: request@, result: opt_view(*result) },
            Entry::OneWayCall { request, invoke_time } => EntryV::OneWayCall {
                request: request@,
                invoke_time: *invoke_time,
            },
            Entry::Awakeable { result } => EntryV::Awakeable { result: opt_view(*result) },
            Entry::CompleteAwakeable { id, result } => EntryV::CompleteAwakeable { id: id@, result: result@ },
            Entry::Run { result } => EntryV::Run { result: result@ },
            Entry::Custom { value } => EntryV::Custom { value: value@ },
        }
    }
}

impl EntryV {
    pub open spec fn entry_type(self) -> EntryType {
        match self {
            EntryV::Input { .. } => EntryType::Input,
            EntryV::Output { .. } => EntryType::Output,
            EntryV::GetState { .. } => EntryType::GetState,
            EntryV::SetState { .. } => EntryType::SetState,
            EntryV::ClearState { .. } => EntryType::ClearState,
            EntryV::GetStateKeys { .. } => EntryType::GetStateKeys,
            EntryV::ClearAllState => EntryType::ClearAllState,
            EntryV::GetPromise { .. } => EntryType::GetPromise,
            EntryV::PeekPromise { .. } => EntryType::PeekPromise,
            EntryV::CompletePromise { .. } => EntryType::CompletePromise,
            EntryV::Sleep { .. } => EntryType::Sleep,
            EntryV::Call { .. } => EntryType::Call,
            EntryV::OneWayCall { .. } => EntryType::OneWayCall,
            EntryV::Awakeable { .. } => EntryType::Awakeable,
            EntryV::CompleteAwakeable { .. } => EntryType::CompleteAwakeable,
            EntryV::Run { .. } => EntryType::Run,
            EntryV::Custom { .. } => EntryType::Custom,
        }
    }
}

impl Entry {
    pub fn entry_type(&self) -> (r: EntryType)
        ensures
            r == self@.entry_type(),
    {
        match self {
            Entry::Input { .. } => EntryType::Input,
            Entry::Output { .. } => EntryType::Output,
            Entry::GetState { .. } => EntryType::GetState,
            Entry::SetState { .. } => EntryType::SetState,
            Entry::ClearState { .. } => EntryType::ClearState,
            Entry::GetStateKeys { .. } => EntryType::GetStateKeys,
            Entry::ClearAllState => EntryType::ClearAllState,
            Entry::GetPromise { .. } => EntryType::GetPromise,
            Entry::PeekPromise { .. } => EntryType::PeekPromise,
            Entry::CompletePromise { .. } => EntryType::CompletePromise,
            Entry::Sleep { .. } => EntryType::Sleep,
            Entry::Call { .. } => EntryType::Call,
            Entry::OneWayCall { .. } => EntryType::OneWayCall,
            Entry::Awakeable { .. } => EntryType::Awakeable,
            Entry::CompleteAwakeable { .. } => EntryType::CompleteAwakeable,
            Entry::Run { .. } => EntryType::Run,
            Entry::Custom { .. } => EntryType::Custom,
        }
    }
}

} // verus!
